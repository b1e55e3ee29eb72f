//! The node: which input it takes, which sessions it keeps, and how its
//! stream ends.

use crate::config::{self, LFM25AudioMode, LFM25AudioOnnxConfig};
use crate::control::{self, ControlAction};
use crate::error::NodeError;
use crate::store::KeyedStore;
use crate::text;
use crate::turn::laws::{self, TurnEvent, TurnOutput};
use crate::turn::TurnState;
use serde_json::Value;
use vstd::prelude::*;

verus! {

/// Data that reaches the node. Samples are carried as they are.
#[derive(Debug)]
pub enum RuntimeData<A> {
    Audio { samples: A, sample_rate: u32 },
    Text(String),
    Json(Value),
    /// Anything else, by the name of its type.
    Other(String),
}

/// Input of a turn.
#[derive(Debug)]
pub enum LFM25Input<A> {
    Audio { samples: A, sample_rate: u32, mode: LFM25AudioMode },
    Text { text: String, mode: LFM25AudioMode },
}

/// What the node keeps of a session.
#[derive(Debug)]
pub struct SessionState {
    pub context: String,
    pub system_prompt: String,
    pub turn_count: u64,
}

/// Model of a [`SessionState`].
#[verifier::ext_equal]
pub struct SessionModel {
    pub context: Seq<char>,
    pub system_prompt: Seq<char>,
    pub turn_count: u64,
}

impl View for SessionState {
    type V = SessionModel;

    open spec fn view(&self) -> SessionModel {
        SessionModel {
            context: self.context@,
            system_prompt: self.system_prompt@,
            turn_count: self.turn_count,
        }
    }
}

/// The session of a caller that names none.
pub open spec fn key_of(session_id: Option<String>) -> Seq<char> {
    match session_id {
        Some(id) => id@,
        None => "default"@,
    }
}

/// `count` and one more; after the last number comes zero.
pub open spec fn counted(count: u64) -> u64 {
    if count == u64::MAX {
        0
    } else {
        (count + 1) as u64
    }
}

/// The sessions with one more turn in session `key`, which begins with the
/// configured prompt where it is new.
pub open spec fn with_turn(
    sessions: Map<Seq<char>, SessionModel>,
    key: Seq<char>,
    system_prompt: Seq<char>,
) -> Map<Seq<char>, SessionModel> {
    let before = if sessions.contains_key(key) {
        sessions[key]
    } else {
        SessionModel { context: Seq::empty(), system_prompt, turn_count: 0 }
    };
    sessions.insert(
        key,
        SessionModel { turn_count: counted(before.turn_count), ..before },
    )
}

/// The sessions after what a control port asked for.
pub open spec fn after_control(
    sessions: Map<Seq<char>, SessionModel>,
    action: ControlAction,
) -> Map<Seq<char>, SessionModel> {
    match action {
        ControlAction::ForgetSessions => Map::empty(),
        ControlAction::Ignore => sessions,
    }
}

/// The control port that `data` names, if it is an envelope.
pub open spec fn port_named<A>(data: RuntimeData<A>) -> Option<Seq<char>> {
    match data {
        RuntimeData::Json(value) => control::port_of(value),
        _ => None,
    }
}

/// Whether `built` is the input that a node with these settings makes of
/// `data`, or its refusal.
pub open spec fn builds<A>(
    config: LFM25AudioOnnxConfig,
    data: RuntimeData<A>,
    built: Result<LFM25Input<A>, NodeError>,
) -> bool {
    match data {
        RuntimeData::Audio { samples, sample_rate } => if !config.mode.takes_audio() {
            built == Err::<LFM25Input<A>, NodeError>(NodeError::AudioNeedsMode)
        } else if sample_rate != config.input_sample_rate {
            built == Err::<LFM25Input<A>, NodeError>(
                NodeError::InputRate { expected: config.input_sample_rate, got: sample_rate },
            )
        } else {
            built == Ok::<LFM25Input<A>, NodeError>(
                LFM25Input::Audio { samples, sample_rate, mode: config.mode },
            )
        },
        RuntimeData::Text(text) => if !config.mode.takes_text() {
            built == Err::<LFM25Input<A>, NodeError>(NodeError::TextNeedsMode)
        } else if text::is_blank(text@) {
            built == Err::<LFM25Input<A>, NodeError>(NodeError::EmptyText)
        } else {
            built == Ok::<LFM25Input<A>, NodeError>(LFM25Input::Text { text, mode: config.mode })
        },
        RuntimeData::Json(_) => built matches Err(NodeError::UnsupportedInput(name)) && name@
            == "json"@,
        RuntimeData::Other(data_type) => built
            == Err::<LFM25Input<A>, NodeError>(NodeError::UnsupportedInput(data_type)),
    }
}

/// What comes of data that reaches the node.
#[derive(Debug)]
pub enum Accepted<A> {
    /// It was a control envelope, and is dealt with.
    Control,
    /// It is input for a turn.
    Turn(LFM25Input<A>),
}

/// Whether `accepted` is what comes of `data` from a caller at a node with these
/// settings, whose sessions then are `after`.
pub open spec fn takes_in<A>(
    config: LFM25AudioOnnxConfig,
    before: Map<Seq<char>, SessionModel>,
    data: RuntimeData<A>,
    session_id: Option<String>,
    after: Map<Seq<char>, SessionModel>,
    accepted: Result<Accepted<A>, NodeError>,
) -> bool {
    match port_named(data) {
        Some(port) => {
            &&& accepted == Ok::<Accepted<A>, NodeError>(Accepted::Control)
            &&& after == after_control(before, control::action_of(port))
        },
        None => {
            &&& after == with_turn(before, key_of(session_id), config.system_prompt@)
            &&& match accepted {
                Ok(taken) => {
                    &&& taken matches Accepted::Turn(input)
                    &&& builds(config, data, Ok::<LFM25Input<A>, NodeError>(input))
                },
                Err(error) => builds(config, data, Err::<LFM25Input<A>, NodeError>(error)),
            }
        },
    }
}

/// The node: its settings and its sessions.
#[derive(Debug)]
pub struct LFM25AudioOnnxNode {
    config: LFM25AudioOnnxConfig,
    sessions: KeyedStore<SessionState>,
}

impl LFM25AudioOnnxNode {
    /// Settings of the node.
    pub closed spec fn settings(&self) -> LFM25AudioOnnxConfig {
        self.config
    }

    /// Sessions of the node.
    pub closed spec fn sessions(&self) -> Map<Seq<char>, SessionModel> {
        self.sessions@.map_values(|state: SessionState| state@)
    }

    /// A node without sessions.
    pub fn new(config: LFM25AudioOnnxConfig) -> (node: LFM25AudioOnnxNode)
        ensures
            node.settings() == config,
            node.sessions() == Map::<Seq<char>, SessionModel>::empty(),
    {
        let node = LFM25AudioOnnxNode { config, sessions: KeyedStore::new() };
        assert(node.sessions() =~= Map::<Seq<char>, SessionModel>::empty());
        node
    }

    /// A node without sessions.
    pub fn with_config(config: LFM25AudioOnnxConfig) -> (node: LFM25AudioOnnxNode)
        ensures
            node.settings() == config,
            node.sessions() == Map::<Seq<char>, SessionModel>::empty(),
    {
        Self::new(config)
    }

    /// The type under which the node is registered.
    pub fn node_type(&self) -> (name: &str)
        ensures
            name@ == "LFM25AudioOnnxNode"@,
    {
        "LFM25AudioOnnxNode"
    }

    /// Settings of the node.
    pub fn config(&self) -> (config: &LFM25AudioOnnxConfig)
        ensures
            *config == self.settings(),
    {
        &self.config
    }

    /// What the node keeps of a session.
    pub fn session(&self, key: &str) -> (state: Option<&SessionState>)
        ensures
            state is Some <==> self.sessions().contains_key(key@),
            state matches Some(kept) ==> kept@ == self.sessions()[key@],
    {
        self.sessions.get(key)
    }

    /// The session of a caller.
    pub fn session_key(session_id: Option<String>) -> (key: String)
        ensures
            key@ == key_of(session_id),
    {
        match session_id {
            Some(id) => id,
            None => "default".to_string(),
        }
    }

    /// Does what a control port asks for.
    pub fn apply_control(&mut self, port: &str)
        ensures
            final(self).settings() == old(self).settings(),
            final(self).sessions() == after_control(
                old(self).sessions(),
                control::action_of(port@),
            ),
    {
        match control::control_action(port) {
            ControlAction::ForgetSessions => {
                self.sessions.clear();
                assert(self.sessions() =~= Map::<Seq<char>, SessionModel>::empty());
            },
            ControlAction::Ignore => {},
        }
    }

    /// Does what a control envelope asks for, and tells whether `data` was one.
    pub fn handle_aux<A>(&mut self, data: &RuntimeData<A>) -> (handled: bool)
        ensures
            handled <==> port_named(*data) is Some,
            final(self).settings() == old(self).settings(),
            final(self).sessions() == match port_named(*data) {
                Some(port) => after_control(old(self).sessions(), control::action_of(port)),
                None => old(self).sessions(),
            },
    {
        if let RuntimeData::Json(value) = data {
            if let Some(port) = control::aux_port(value) {
                self.apply_control(port);
                return true;
            }
        }
        false
    }

    /// Makes the input of a turn of `data`, or refuses it.
    pub fn build_input<A>(&self, data: RuntimeData<A>) -> (built: Result<LFM25Input<A>, NodeError>)
        ensures
            builds(self.settings(), data, built),
    {
        match data {
            RuntimeData::Audio { samples, sample_rate } => {
                if let LFM25AudioMode::Tts = self.config.mode {
                    return Err(NodeError::AudioNeedsMode);
                }
                if sample_rate != self.config.input_sample_rate {
                    return Err(
                        NodeError::InputRate {
                            expected: self.config.input_sample_rate,
                            got: sample_rate,
                        },
                    );
                }
                Ok(LFM25Input::Audio { samples, sample_rate, mode: self.config.mode })
            },
            RuntimeData::Text(text) => {
                if let LFM25AudioMode::Asr = self.config.mode {
                    return Err(NodeError::TextNeedsMode);
                }
                if text::is_blank_text(text.as_str()) {
                    return Err(NodeError::EmptyText);
                }
                Ok(LFM25Input::Text { text, mode: self.config.mode })
            },
            RuntimeData::Json(_) => Err(NodeError::UnsupportedInput("json".to_string())),
            RuntimeData::Other(data_type) => Err(NodeError::UnsupportedInput(data_type)),
        }
    }

    /// Counts a turn in session `key`.
    pub fn count_turn(&mut self, key: &str)
        ensures
            final(self).settings() == old(self).settings(),
            final(self).sessions() == with_turn(
                old(self).sessions(),
                key@,
                old(self).settings().system_prompt@,
            ),
    {
        let state = match self.sessions.get(key) {
            Some(kept) => SessionState {
                context: kept.context.clone(),
                system_prompt: kept.system_prompt.clone(),
                turn_count: kept.turn_count.wrapping_add(1),
            },
            None => SessionState {
                context: String::new(),
                system_prompt: self.config.system_prompt.clone(),
                turn_count: 1,
            },
        };
        self.sessions.insert(key, state);
        assert(self.sessions() =~= with_turn(
            old(self).sessions(),
            key@,
            old(self).settings().system_prompt@,
        ));
    }

    /// Takes data in: a control envelope is dealt with; anything else counts as
    /// a turn of its session, and is then made the turn's input, or refused.
    pub fn accept<A>(&mut self, data: RuntimeData<A>, session_id: Option<String>) -> (accepted:
        Result<Accepted<A>, NodeError>)
        ensures
            takes_in(
                old(self).settings(),
                old(self).sessions(),
                data,
                session_id,
                final(self).sessions(),
                accepted,
            ),
            final(self).settings() == old(self).settings(),
            match port_named(data) {
                Some(port) => {
                    &&& accepted == Ok::<Accepted<A>, NodeError>(Accepted::Control)
                    &&& final(self).sessions() == after_control(
                        old(self).sessions(),
                        control::action_of(port),
                    )
                },
                None => {
                    &&& final(self).sessions() == with_turn(
                        old(self).sessions(),
                        key_of(session_id),
                        old(self).settings().system_prompt@,
                    )
                    &&& match accepted {
                        Ok(taken) => {
                            &&& taken matches Accepted::Turn(input)
                            &&& builds(
                                old(self).settings(),
                                data,
                                Ok::<LFM25Input<A>, NodeError>(input),
                            )
                        },
                        Err(error) => builds(
                            old(self).settings(),
                            data,
                            Err::<LFM25Input<A>, NodeError>(error),
                        ),
                    }
                },
            },
    {
        if self.handle_aux(&data) {
            return Ok(Accepted::Control);
        }
        let key = Self::session_key(session_id);
        self.count_turn(key.as_str());
        match self.build_input(data) {
            Ok(input) => Ok(Accepted::Turn(input)),
            Err(error) => Err(error),
        }
    }
}

/// The last output of a turn, which has to have one.
pub fn require_output<A>(last: Option<A>) -> (output: Result<A, NodeError>)
    ensures
        match last {
            Some(item) => output == Ok::<A, NodeError>(item),
            None => output == Err::<A, NodeError>(NodeError::NoOutput),
        },
{
    match last {
        Some(item) => Ok(item),
        None => Err(NodeError::NoOutput),
    }
}

/// The marks that end every stream, in their order.
pub open spec fn end_marks() -> Seq<Seq<char>> {
    seq!["<|text_end|>"@, "<|audio_end|>"@]
}

/// How a stream ends.
#[derive(Debug)]
pub struct StreamEnd {
    /// Texts to give out behind the turn's own output.
    pub marks: Vec<String>,
    /// Number of items given out, the marks among them.
    pub total: usize,
}

/// Whether a stream whose turn gave out `emitted` items ends like this.
pub open spec fn is_end(emitted: usize, end: StreamEnd) -> bool {
    &&& text::views(end.marks@) == end_marks()
    &&& end.total == emitted + end_marks().len()
}

/// Ends a stream whose turn gave out `emitted` items.
pub fn end_stream(emitted: usize) -> (end: StreamEnd)
    requires
        emitted <= usize::MAX - 2,
    ensures
        is_end(emitted, end),
        text::views(end.marks@) == end_marks(),
        end.total == emitted + end_marks().len(),
{
    let mut marks: Vec<String> = Vec::new();
    marks.push("<|text_end|>".to_string());
    marks.push("<|audio_end|>".to_string());
    assert(text::views(marks@) =~= end_marks());
    StreamEnd { marks, total: emitted + 2 }
}

/// Makes nodes from their parameters.
#[derive(Debug, Clone, Copy, Default)]
pub struct LFM25AudioOnnxNodeFactory;

impl LFM25AudioOnnxNodeFactory {
    /// The type of the nodes.
    pub fn node_type(&self) -> (name: &'static str)
        ensures
            name@ == "LFM25AudioOnnxNode"@,
    {
        "LFM25AudioOnnxNode"
    }

    /// A node with these settings, or with the default ones where the
    /// parameters could not be read.
    pub fn create(&self, parsed: Option<LFM25AudioOnnxConfig>) -> (node: LFM25AudioOnnxNode)
        ensures
            node.sessions() == Map::<Seq<char>, SessionModel>::empty(),
            match parsed {
                Some(config) => node.settings() == config,
                None => config::is_default(node.settings()),
            },
    {
        let config = match parsed {
            Some(config) => config,
            None => LFM25AudioOnnxConfig::default(),
        };
        LFM25AudioOnnxNode::new(config)
    }
}

/// Which input a mode takes: `asr` takes audio, `tts` takes text, and
/// `interleaved` takes both; nothing else is ever input of a turn.
pub proof fn mode_matrix<A>(
    config: LFM25AudioOnnxConfig,
    data: RuntimeData<A>,
    input: LFM25Input<A>,
)
    requires
        builds(config, data, Ok::<LFM25Input<A>, NodeError>(input)),
    ensures
        config.mode == LFM25AudioMode::Asr ==> data is Audio,
        config.mode == LFM25AudioMode::Tts ==> data is Text,
        data is Audio || data is Text,
        data is Audio <==> input is Audio,
        match input {
            LFM25Input::Audio { sample_rate, mode, .. } => {
                &&& mode == config.mode
                &&& sample_rate == config.input_sample_rate
            },
            LFM25Input::Text { text, mode } => mode == config.mode && !text::is_blank(text@),
        },
{
}

/// A refusal depends on the settings and the data alone: the same data is
/// refused with the same words every time.
pub proof fn refusals_are_settled<A>(
    config: LFM25AudioOnnxConfig,
    data: RuntimeData<A>,
    first: NodeError,
    second: NodeError,
)
    requires
        builds(config, data, Err::<LFM25Input<A>, NodeError>(first)),
        builds(config, data, Err::<LFM25Input<A>, NodeError>(second)),
    ensures
        first.wording() == second.wording(),
{
}

/// A session outlives the turns of every other, and counts its own: after a
/// turn in `key` any other session is what it was, and `key` has its prompt
/// and its context still.
pub proof fn turns_touch_their_session_alone(
    sessions: Map<Seq<char>, SessionModel>,
    key: Seq<char>,
    other: Seq<char>,
    system_prompt: Seq<char>,
)
    requires
        key != other,
    ensures
        with_turn(sessions, key, system_prompt).contains_key(other) == sessions.contains_key(other),
        sessions.contains_key(other) ==> with_turn(sessions, key, system_prompt)[other]
            == sessions[other],
        with_turn(sessions, key, system_prompt).contains_key(key),
        sessions.contains_key(key) ==> {
            let after = with_turn(sessions, key, system_prompt)[key];
            &&& after.context == sessions[key].context
            &&& after.system_prompt == sessions[key].system_prompt
        },
{
}

/// A new context, a new system prompt and a reset forget every session; a
/// barge-in and ports that the node does not know forget none.
pub proof fn control_ports(sessions: Map<Seq<char>, SessionModel>, port: Seq<char>)
    ensures
        after_control(sessions, control::action_of("context"@)) == Map::<
            Seq<char>,
            SessionModel,
        >::empty(),
        after_control(sessions, control::action_of("system_prompt"@)) == Map::<
            Seq<char>,
            SessionModel,
        >::empty(),
        after_control(sessions, control::action_of("reset"@)) == Map::<
            Seq<char>,
            SessionModel,
        >::empty(),
        after_control(sessions, control::action_of("barge_in"@)) == sessions,
        port != "context"@ && port != "system_prompt"@ && port != "reset"@ ==> after_control(
            sessions,
            control::action_of(port),
        ) == sessions,
{
    reveal_strlit("context");
    reveal_strlit("system_prompt");
    reveal_strlit("reset");
    reveal_strlit("barge_in");
    assert("barge_in"@[0] == 'b');
    assert("context"@[0] == 'c');
    assert("system_prompt"@[0] == 's');
    assert("reset"@[0] == 'r');
}

/// A session that was forgotten begins anew, with the configured prompt and
/// its first turn.
pub proof fn forgotten_sessions_begin_anew(
    sessions: Map<Seq<char>, SessionModel>,
    key: Seq<char>,
    system_prompt: Seq<char>,
)
    ensures
        with_turn(
            after_control(sessions, ControlAction::ForgetSessions),
            key,
            system_prompt,
        ) == map![
            key => SessionModel { context: Seq::empty(), system_prompt, turn_count: 1 }
        ],
{
    assert(with_turn(
        after_control(sessions, ControlAction::ForgetSessions),
        key,
        system_prompt,
    ) =~= map![
        key => SessionModel { context: Seq::empty(), system_prompt, turn_count: 1 }
    ]);
}

/// The items of a whole stream: those of its turn, and then the marks.
pub open spec fn stream_of(given_out: Seq<TurnOutput>) -> Seq<TurnOutput> {
    given_out + end_marks().map_values(|mark: Seq<char>| TurnOutput::Text(mark))
}

/// Whatever a turn gave out, its stream ends with the two marks, in their
/// order, and the number reported for it is the number of its items.
pub proof fn streams_end_with_the_marks(start: TurnState, events: Seq<TurnEvent>)
    requires
        start.valid(),
        start.emitted == 0,
        laws::legal(start, events),
    ensures
        ({
            let given_out = laws::outputs(start, events);
            let stream = stream_of(given_out);
            &&& stream.len() == laws::run(start, events).emitted + end_marks().len()
            &&& stream.take(given_out.len() as int) == given_out
            &&& stream[stream.len() - 2] == TurnOutput::Text("<|text_end|>"@)
            &&& stream[stream.len() - 1] == TurnOutput::Text("<|audio_end|>"@)
        }),
{
    let given_out = laws::outputs(start, events);
    laws::turn_counts_what_it_gives_out(start, events);
    assert(stream_of(given_out).take(given_out.len() as int) =~= given_out);
}

/// What is taken as the input of a turn, and why anything else is refused: audio
/// in the modes that take it and at the configured rate, text in the modes that
/// take it and where it is not blank; audio and text are handed on as they are.
pub proof fn input_is_taken_or_refused<A>(
    config: LFM25AudioOnnxConfig,
    data: RuntimeData<A>,
    built: Result<LFM25Input<A>, NodeError>,
)
    requires
        builds(config, data, built),
    ensures
        match data {
            RuntimeData::Audio { samples, sample_rate } => {
                &&& built is Ok <==> config.mode != LFM25AudioMode::Tts && sample_rate
                    == config.input_sample_rate
                &&& built is Ok ==> built->Ok_0 == (LFM25Input::Audio {
                    samples,
                    sample_rate,
                    mode: config.mode,
                })
                &&& config.mode == LFM25AudioMode::Tts ==> built->Err_0.wording()
                    == "LFM25AudioOnnxNode: audio input requires asr or interleaved mode"@
                &&& config.mode != LFM25AudioMode::Tts && sample_rate != config.input_sample_rate
                    ==> built->Err_0.wording() == "LFM25AudioOnnxNode: "@ + "expected "@
                    + text::numeral(config.input_sample_rate as nat) + "Hz audio input, got "@ + (
                text::numeral(sample_rate as nat) + "Hz"@)
            },
            RuntimeData::Text(words) => {
                let blank = forall|i: int|
                    0 <= i < words@.len() ==> text::is_white(#[trigger] words@[i]);
                &&& built is Ok <==> config.mode != LFM25AudioMode::Asr && !blank
                &&& built is Ok ==> built->Ok_0 == (LFM25Input::<A>::Text {
                    text: words,
                    mode: config.mode,
                })
                &&& config.mode == LFM25AudioMode::Asr ==> built->Err_0.wording()
                    == "LFM25AudioOnnxNode: text input requires tts or interleaved mode"@
                &&& config.mode != LFM25AudioMode::Asr && blank ==> built->Err_0.wording()
                    == "LFM25AudioOnnxNode: text input must not be empty"@
            },
            RuntimeData::Json(_) => built is Err && built->Err_0.wording()
                == "LFM25AudioOnnxNode expects Audio, Text, or aux Json input; got "@ + "json"@,
            RuntimeData::Other(data_type) => built is Err && built->Err_0.wording()
                == "LFM25AudioOnnxNode expects Audio, Text, or aux Json input; got "@ + data_type@,
        },
{
}

/// A turn is counted in its session: the first one there makes the count one,
/// and every other adds one to it, for as long as it can be counted. A new
/// session has no context and the configured prompt.
pub proof fn turns_are_counted_one_by_one(
    sessions: Map<Seq<char>, SessionModel>,
    key: Seq<char>,
    system_prompt: Seq<char>,
)
    ensures
        with_turn(sessions, key, system_prompt).contains_key(key),
        !sessions.contains_key(key) ==> {
            let after = with_turn(sessions, key, system_prompt)[key];
            &&& after.turn_count == 1
            &&& after.context.len() == 0
            &&& after.system_prompt == system_prompt
        },
        sessions.contains_key(key) && sessions[key].turn_count < u64::MAX ==> with_turn(
            sessions,
            key,
            system_prompt,
        )[key].turn_count == sessions[key].turn_count + 1,
        sessions.contains_key(key) && sessions[key].turn_count == u64::MAX ==> with_turn(
            sessions,
            key,
            system_prompt,
        )[key].turn_count == 0,
{
}

/// A caller that names a session has that one, and all callers that name none
/// share the one called `default`.
pub proof fn callers_have_their_sessions(id: String)
    ensures
        key_of(Some(id)) == id@,
        key_of(None) == "default"@,
{
}

/// Only data that is JSON can name a control port.
pub proof fn only_json_is_control<A>(data: RuntimeData<A>)
    ensures
        data matches RuntimeData::Json(value) ==> port_named(data) == control::port_of(value),
        !(data is Json) ==> port_named(data) is None,
{
}

/// A session is kept as it is.
pub proof fn sessions_are_kept_as_they_are(state: SessionState)
    ensures
        state@.context == state.context@,
        state@.system_prompt == state.system_prompt@,
        state@.turn_count == state.turn_count,
{
}

/// Every stream ends with two marks, first that of the text and then that of the
/// audio.
pub proof fn marks_end_text_then_audio()
    ensures
        end_marks().len() == 2,
        end_marks()[0] == "<|text_end|>"@,
        end_marks()[1] == "<|audio_end|>"@,
{
}

/// Data from a caller that is no control envelope counts as a turn of the
/// session that the caller has, whether it is then taken or refused, and of no
/// other; a control envelope counts as none.
pub proof fn data_counts_as_a_turn<A>(
    config: LFM25AudioOnnxConfig,
    before: Map<Seq<char>, SessionModel>,
    data: RuntimeData<A>,
    session_id: Option<String>,
    after: Map<Seq<char>, SessionModel>,
    accepted: Result<Accepted<A>, NodeError>,
    other: Seq<char>,
)
    requires
        takes_in(config, before, data, session_id, after, accepted),
    ensures
        accepted == Ok::<Accepted<A>, NodeError>(Accepted::Control) <==> port_named(data) is Some,
        port_named(data) is None ==> {
            let key = match session_id {
                Some(id) => id@,
                None => "default"@,
            };
            &&& after.contains_key(key)
            &&& !before.contains_key(key) ==> {
                &&& after[key].turn_count == 1
                &&& after[key].system_prompt == config.system_prompt@
            }
            &&& before.contains_key(key) && before[key].turn_count < u64::MAX
                ==> after[key].turn_count == before[key].turn_count + 1
            &&& other != key ==> before.contains_key(other) == after.contains_key(other)
            &&& other != key && before.contains_key(other) ==> after[other] == before[other]
        },
        port_named(data) matches Some(port) ==> {
            let forgets = port == "context"@ || port == "system_prompt"@ || port == "reset"@;
            &&& forgets ==> after == Map::<Seq<char>, SessionModel>::empty()
            &&& !forgets ==> after == before
        },
        data is Audio && accepted is Ok ==> {
            &&& config.mode != LFM25AudioMode::Tts
            &&& data->sample_rate == config.input_sample_rate
            &&& accepted->Ok_0 == Accepted::Turn(
                LFM25Input::Audio {
                    samples: data->samples,
                    sample_rate: data->sample_rate,
                    mode: config.mode,
                },
            )
        },
        data is Audio && config.mode != LFM25AudioMode::Tts && data->sample_rate
            == config.input_sample_rate ==> accepted is Ok,
        data matches RuntimeData::Text(words) ==> {
            let blank = forall|i: int|
                0 <= i < words@.len() ==> text::is_white(#[trigger] words@[i]);
            &&& accepted is Ok <==> config.mode != LFM25AudioMode::Asr && !blank
            &&& accepted is Ok ==> accepted->Ok_0 == Accepted::<A>::Turn(
                LFM25Input::Text { text: words, mode: config.mode },
            )
        },
{
    if let Some(port) = port_named(data) {
        control_ports(before, port);
    }
}

/// A stream ends with two marks more than its turn gave out, first that of the
/// text and then that of the audio.
pub proof fn end_adds_two_marks(emitted: usize, end: StreamEnd)
    requires
        is_end(emitted, end),
    ensures
        end.total == emitted + 2,
        end.marks@.len() == 2,
        end.marks@[0]@ == "<|text_end|>"@,
        end.marks@[1]@ == "<|audio_end|>"@,
{
    let views = text::views(end.marks@);
    assert(views[0] == end.marks@[0]@);
    assert(views[1] == end.marks@[1]@);
}

} // verus!
