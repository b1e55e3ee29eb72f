//! Control envelopes: JSON objects that name a control port instead of
//! carrying input for a turn.

use crate::json;
use crate::text;
use serde_json::Value;
use vstd::prelude::*;

verus! {

/// The control port that an envelope names: the text of its member
/// `__aux_port__`.
pub open spec fn port_of(value: Value) -> Option<Seq<char>> {
    json::text_at(value, "__aux_port__"@)
}

/// The control port that an envelope names; `None` where it is no envelope.
pub fn aux_port(value: &Value) -> (port: Option<&str>)
    ensures
        match port {
            Some(name) => port_of(*value) == Some(name@),
            None => port_of(*value) is None,
        },
{
    json::member_text(value, "__aux_port__")
}

/// What a control port asks for.
#[derive(Debug, Clone, Copy, PartialEq, Eq, Structural)]
pub enum ControlAction {
    /// Forget every session.
    ForgetSessions,
    /// Nothing that the node keeps changes.
    Ignore,
}

/// What the control port `port` asks for: a new context, a new system prompt
/// and a reset make the node forget its sessions.
pub open spec fn action_of(port: Seq<char>) -> ControlAction {
    if port == "context"@ || port == "system_prompt"@ || port == "reset"@ {
        ControlAction::ForgetSessions
    } else {
        ControlAction::Ignore
    }
}

/// What the control port `port` asks for.
pub fn control_action(port: &str) -> (action: ControlAction)
    ensures
        action == action_of(port@),
{
    if text::same_text(port, "context") || text::same_text(port, "system_prompt")
        || text::same_text(port, "reset") {
        ControlAction::ForgetSessions
    } else {
        ControlAction::Ignore
    }
}

/// An envelope names its port in the member `__aux_port__`, by a text; anything
/// else is no envelope.
pub proof fn envelopes_name_their_port(value: Value, port: Seq<char>)
    ensures
        port_of(value) == Some(port) <==> exists|member: Value|
            json::json_member(value, "__aux_port__"@) == Some(member) && #[trigger] json::json_text(
                member,
            ) == Some(port),
        json::json_member(value, "__aux_port__"@) is None ==> port_of(value) is None,
{
    if port_of(value) == Some(port) {
        let member = json::json_member(value, "__aux_port__"@)->0;
        assert(json::json_text(member) == Some(port));
    }
}

} // verus!
