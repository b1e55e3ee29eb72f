//! The depthformer that yields one code per run: what each of its runs is
//! given, and what is kept of it for the next.

use crate::codes::Frame;
use crate::error::NodeError;
use crate::text;
use vstd::prelude::*;

verus! {

/// Number of values that the depthformer keeps for each codebook.
pub const DEPTH_SLICE: usize = 1024;

/// State of a run through the codebooks.
#[verifier::ext_equal]
pub struct DepthState<T> {
    /// The codes so far.
    pub codes: Seq<i64>,
    /// What the first run made of the hidden state, for each codebook.
    pub depth_slices: Seq<T>,
    pub past_keys: Seq<T>,
    pub past_values: Seq<T>,
}

/// What a depthformer run returns besides the code.
#[verifier::ext_equal]
pub struct DepthYield<T> {
    pub depth_slices: Option<Seq<T>>,
    pub new_keys: Option<Seq<T>>,
    pub new_values: Option<Seq<T>>,
}

impl<T> DepthState<T> {
    /// Before the first run.
    pub open spec fn start(zero: T) -> DepthState<T> {
        DepthState {
            codes: Seq::empty(),
            depth_slices: Seq::new(8 * DEPTH_SLICE as nat, |i: int| zero),
            past_keys: Seq::empty(),
            past_values: Seq::empty(),
        }
    }

    /// Which codebook comes next.
    pub open spec fn step(self) -> int {
        self.codes.len() as int
    }

    /// The code that the next run follows; zero for the first.
    pub open spec fn prev_token(self) -> i64 {
        if self.codes.len() == 0 {
            0
        } else {
            self.codes.last()
        }
    }

    /// Whether the next run has to return the slices.
    pub open spec fn asks_slices(self) -> bool {
        self.step() == 0
    }

    /// Whether the next run has to return keys and values.
    pub open spec fn asks_past(self) -> bool {
        self.step() + 1 < 8
    }

    /// Whether a run that was asked for what this state asks may return this.
    pub open spec fn accepts(self, yielded: DepthYield<T>) -> bool {
        &&& self.step() < 8
        &&& yielded.depth_slices is Some <==> self.asks_slices()
        &&& yielded.new_keys is Some <==> self.asks_past()
        &&& yielded.new_values is Some <==> self.asks_past()
    }

    /// After a run that returned the code `token` and these tensors.
    pub open spec fn after(self, token: i64, yielded: DepthYield<T>) -> DepthState<T> {
        DepthState {
            codes: self.codes.push(token),
            depth_slices: match yielded.depth_slices {
                Some(slices) => slices,
                None => self.depth_slices,
            },
            past_keys: match yielded.new_keys {
                Some(keys) => keys,
                None => self.past_keys,
            },
            past_values: match yielded.new_values {
                Some(values) => values,
                None => self.past_values,
            },
        }
    }
}

/// Names of the outputs that the run for codebook `step` has to return, first
/// of which the code, or the scores that it is sampled from.
pub open spec fn outputs_of(token_output: bool, step: int) -> Seq<Seq<char>> {
    let code = if token_output {
        seq!["token_id"@]
    } else {
        seq!["logits"@]
    };
    let slices = if step == 0 {
        seq!["depth_slices"@]
    } else {
        seq![]
    };
    let past = if step + 1 < 8 {
        seq!["new_keys"@, "new_values"@]
    } else {
        seq![]
    };
    code + slices + past
}

/// What a depthformer run is given besides the tensors.
#[derive(Debug)]
pub struct DepthRequest {
    pub step: usize,
    pub prev_token: i64,
    /// Shape of the keys, and of the values.
    pub past_shape: [usize; 5],
    /// Number of positions before this one.
    pub seqlens: i32,
    /// Number of positions with this one.
    pub total_len: i32,
    /// Names of the outputs to return.
    pub outputs: Vec<String>,
}

/// Whether `request` is what the next run of a depthformer in `state` is given.
pub open spec fn is_request<T>(
    state: DepthState<T>,
    token_output: bool,
    request: Option<DepthRequest>,
) -> bool {
    &&& request is Some <==> state.step() < 8
    &&& request matches Some(r) ==> {
        &&& r.step == state.step()
        &&& r.prev_token == state.prev_token()
        &&& r.past_shape@ == seq![6usize, 1, 8, state.step() as usize, 32]
        &&& r.seqlens == state.step()
        &&& r.total_len == state.step() + 1
        &&& text::views(r.outputs@) == outputs_of(token_output, state.step())
    }
}

/// Tensors that a depthformer run returned.
#[derive(Debug)]
pub struct DepthOutputs<T> {
    pub depth_slices: Option<Vec<T>>,
    pub new_keys: Option<Vec<T>>,
    pub new_values: Option<Vec<T>>,
}

/// The view of a tensor that may be missing.
pub open spec fn seq_of<T>(values: Option<Vec<T>>) -> Option<Seq<T>> {
    match values {
        Some(list) => Some(list@),
        None => None,
    }
}

impl<T> View for DepthOutputs<T> {
    type V = DepthYield<T>;

    open spec fn view(&self) -> DepthYield<T> {
        DepthYield {
            depth_slices: seq_of(self.depth_slices),
            new_keys: seq_of(self.new_keys),
            new_values: seq_of(self.new_values),
        }
    }
}

/// A run through the codebooks.
#[derive(Debug)]
pub struct DepthRun<T> {
    codes: Vec<i64>,
    depth_slices: Vec<T>,
    past_keys: Vec<T>,
    past_values: Vec<T>,
}

impl<T> View for DepthRun<T> {
    type V = DepthState<T>;

    closed spec fn view(&self) -> DepthState<T> {
        DepthState {
            codes: self.codes@,
            depth_slices: self.depth_slices@,
            past_keys: self.past_keys@,
            past_values: self.past_values@,
        }
    }
}

/// Whether `frame` is the frame of a depthformer in `state`.
pub open spec fn is_frame<T>(state: DepthState<T>, frame: Option<Frame>) -> bool {
    &&& frame is Some <==> state.step() == 8
    &&& frame matches Some(f) ==> f@ == state.codes
}

impl<T: Copy> DepthRun<T> {
    /// Begins at the first codebook, with slices of zeros.
    pub fn new(zero: T) -> (run: DepthRun<T>)
        ensures
            run@ == DepthState::start(zero),
    {
        let mut depth_slices: Vec<T> = Vec::new();
        let len: usize = 8 * DEPTH_SLICE;
        for i in 0..len
            invariant
                depth_slices@.len() == i,
                forall|j: int| 0 <= j < i ==> #[trigger] depth_slices@[j] == zero,
        {
            depth_slices.push(zero);
        }
        let run = DepthRun {
            codes: Vec::new(),
            depth_slices,
            past_keys: Vec::new(),
            past_values: Vec::new(),
        };
        assert(run@ =~= DepthState::start(zero));
        run
    }
}

impl<T> DepthRun<T> {
    /// What the next run is given; nothing once every codebook has its code.
    pub fn request(&self, token_output: bool) -> (request: Option<DepthRequest>)
        ensures
            is_request(self@, token_output, request),
            request is Some <==> self@.step() < 8,
            request matches Some(r) ==> {
                &&& r.step == self@.step()
                &&& r.prev_token == self@.prev_token()
                &&& r.past_shape@ == seq![6usize, 1, 8, self@.step() as usize, 32]
                &&& r.seqlens == self@.step()
                &&& r.total_len == self@.step() + 1
                &&& text::views(r.outputs@) == outputs_of(token_output, self@.step())
            },
    {
        let step: usize = self.codes.len();
        if step >= 8 {
            return None;
        }
        let prev_token: i64 = if step == 0 {
            0
        } else {
            self.codes[step - 1]
        };
        let mut outputs: Vec<String> = Vec::new();
        if token_output {
            outputs.push("token_id".to_string());
        } else {
            outputs.push("logits".to_string());
        }
        if step == 0 {
            outputs.push("depth_slices".to_string());
        }
        if step + 1 < 8 {
            outputs.push("new_keys".to_string());
            outputs.push("new_values".to_string());
        }
        assert(text::views(outputs@) =~= outputs_of(token_output, self@.step()));
        let past_shape: [usize; 5] = [6, 1, 8, step, 32];
        assert(past_shape@ =~= seq![6usize, 1, 8, self@.step() as usize, 32]);
        Some(
            DepthRequest {
                step,
                prev_token,
                past_shape,
                seqlens: step as i32,
                total_len: step as i32 + 1,
                outputs,
            },
        )
    }

    /// The slices that the next run is given.
    pub fn depth_slices(&self) -> (slices: &Vec<T>)
        ensures
            slices@ == self@.depth_slices,
    {
        &self.depth_slices
    }

    /// The keys that the next run is given.
    pub fn past_keys(&self) -> (keys: &Vec<T>)
        ensures
            keys@ == self@.past_keys,
    {
        &self.past_keys
    }

    /// The values that the next run is given.
    pub fn past_values(&self) -> (values: &Vec<T>)
        ensures
            values@ == self@.past_values,
    {
        &self.past_values
    }

    /// Takes in the code of a run and the tensors that it returned.
    pub fn absorb(&mut self, token: i64, outputs: DepthOutputs<T>)
        requires
            old(self)@.accepts(outputs@),
        ensures
            final(self)@ == old(self)@.after(token, outputs@),
    {
        self.codes.push(token);
        if let Some(slices) = outputs.depth_slices {
            self.depth_slices = slices;
        }
        if let Some(keys) = outputs.new_keys {
            self.past_keys = keys;
        }
        if let Some(values) = outputs.new_values {
            self.past_values = values;
        }
    }

    /// The frame of the codes, once every codebook has one.
    pub fn frame(&self) -> (frame: Option<Frame>)
        ensures
            is_frame(self@, frame),
            frame is Some <==> self@.step() == 8,
            frame matches Some(f) ==> f@ == self@.codes,
    {
        if self.codes.len() != 8 {
            return None;
        }
        let mut frame: Frame = [0; 8];
        for i in 0..8usize
            invariant
                self.codes@.len() == 8,
                frame@.len() == 8,
                forall|j: int| 0 <= j < i ==> #[trigger] frame@[j] == self.codes@[j],
        {
            frame[i] = self.codes[i];
        }
        assert(frame@ =~= self.codes@);
        Some(frame)
    }
}

/// Whether `token` is the code in the output of a depthformer that picks codes
/// itself.
pub open spec fn is_code_of(ids: Seq<i64>, token: Result<i64, NodeError>) -> bool {
    if ids.len() == 0 {
        token == Err::<i64, NodeError>(NodeError::EmptyDepthformerToken)
    } else {
        token == Ok::<i64, NodeError>(ids[0])
    }
}

/// The code in the output of a depthformer that picks codes itself.
pub fn depth_token(ids: &Vec<i64>) -> (token: Result<i64, NodeError>)
    ensures
        is_code_of(ids@, token),
        ids@.len() > 0 ==> token == Ok::<i64, NodeError>(ids@[0]),
        ids@.len() == 0 ==> token == Err::<i64, NodeError>(NodeError::EmptyDepthformerToken),
{
    if ids.len() == 0 {
        Err(NodeError::EmptyDepthformerToken)
    } else {
        Ok(ids[0])
    }
}

/// The state after the runs `steps`, each with its code and its tensors.
pub open spec fn depth_run<T>(zero: T, steps: Seq<(i64, DepthYield<T>)>) -> DepthState<T>
    decreases steps.len(),
{
    if steps.len() == 0 {
        DepthState::start(zero)
    } else {
        depth_run(zero, steps.drop_last()).after(steps.last().0, steps.last().1)
    }
}

/// Whether every one of the runs returned what it was asked for.
pub open spec fn depth_steps_legal<T>(zero: T, steps: Seq<(i64, DepthYield<T>)>) -> bool {
    forall|i: int|
        0 <= i < steps.len() ==> depth_run(zero, #[trigger] steps.take(i)).accepts(steps[i].1)
}

/// The codes of a frame are those that the runs returned, in their order; no
/// frame takes more runs than there are codebooks.
pub proof fn codes_come_back_in_order<T>(zero: T, steps: Seq<(i64, DepthYield<T>)>)
    requires
        depth_steps_legal(zero, steps),
    ensures
        depth_run(zero, steps).codes == steps.map_values(|s: (i64, DepthYield<T>)| s.0),
        steps.len() <= 8,
    decreases steps.len(),
{
    if steps.len() > 0 {
        let rest = steps.drop_last();
        legal_prefix(zero, steps);
        codes_come_back_in_order(zero, rest);
        assert(steps.take(steps.len() - 1) =~= rest);
        assert(depth_run(zero, rest).accepts(steps.last().1));
    }
    assert(depth_run(zero, steps).codes =~= steps.map_values(|s: (i64, DepthYield<T>)| s.0));
}

proof fn legal_prefix<T>(zero: T, steps: Seq<(i64, DepthYield<T>)>)
    requires
        depth_steps_legal(zero, steps),
        steps.len() > 0,
    ensures
        depth_steps_legal(zero, steps.drop_last()),
{
    let rest = steps.drop_last();
    assert forall|i: int| 0 <= i < rest.len() implies depth_run(
        zero,
        #[trigger] rest.take(i),
    ).accepts(rest[i].1) by {
        assert(rest.take(i) =~= steps.take(i));
    }
}

/// Each run is given the code of the run before it, the slices of the first
/// run, and the keys and values of the run before it.
pub proof fn runs_are_chained<T>(zero: T, steps: Seq<(i64, DepthYield<T>)>)
    requires
        depth_steps_legal(zero, steps),
        0 < steps.len() < 8,
    ensures
        depth_run(zero, steps).prev_token() == steps.last().0,
        Some(depth_run(zero, steps).depth_slices) == steps[0].1.depth_slices,
        Some(depth_run(zero, steps).past_keys) == steps.last().1.new_keys,
        Some(depth_run(zero, steps).past_values) == steps.last().1.new_values,
    decreases steps.len(),
{
    let rest = steps.drop_last();
    codes_come_back_in_order(zero, steps);
    legal_prefix(zero, steps);
    codes_come_back_in_order(zero, rest);
    assert(steps.take(steps.len() - 1) =~= rest);
    assert(depth_run(zero, rest).accepts(steps.last().1));
    if rest.len() > 0 {
        runs_are_chained(zero, rest);
    }
}

/// Before its first run the depthformer has no code, no keys and no values, and
/// 1024 zeros for each of the eight codebooks.
pub proof fn depthformer_begins_with_zeros<T>(zero: T, i: int)
    ensures
        DepthState::start(zero).codes.len() == 0,
        DepthState::start(zero).past_keys.len() == 0,
        DepthState::start(zero).past_values.len() == 0,
        DepthState::start(zero).depth_slices.len() == 8192,
        0 <= i < 8192 ==> DepthState::start(zero).depth_slices[i] == zero,
        DepthState::start(zero).step() == 0,
        DepthState::start(zero).prev_token() == 0,
{
}

/// What a run has to return: the first of the eight the slices, all but the last
/// the keys and values, and every one a code, or the scores that it is sampled
/// from, before all else.
pub proof fn runs_return_what_is_asked<T>(state: DepthState<T>, token_output: bool)
    requires
        state.codes.len() < 8,
    ensures
        state.step() == state.codes.len(),
        state.asks_slices() <==> state.codes.len() == 0,
        state.asks_past() <==> state.codes.len() < 7,
        ({
            let first = if token_output {
                "token_id"@
            } else {
                "logits"@
            };
            outputs_of(token_output, state.step()) == if state.codes.len() == 0 {
                seq![first, "depth_slices"@, "new_keys"@, "new_values"@]
            } else if state.codes.len() < 7 {
                seq![first, "new_keys"@, "new_values"@]
            } else {
                seq![first]
            }
        }),
        state.codes.len() > 0 ==> state.prev_token() == state.codes[state.codes.len() - 1],
{
    let first = if token_output {
        "token_id"@
    } else {
        "logits"@
    };
    let outputs = outputs_of(token_output, state.step());
    if state.codes.len() == 0 {
        assert(outputs =~= seq![first, "depth_slices"@, "new_keys"@, "new_values"@]);
    } else if state.codes.len() < 7 {
        assert(outputs =~= seq![first, "new_keys"@, "new_values"@]);
    } else {
        assert(outputs =~= seq![first]);
    }
}

/// A run adds its code behind the codes so far, and replaces what it returned:
/// slices, keys and values each by its own; what it did not return stays.
pub proof fn runs_replace_what_they_return<T>(
    state: DepthState<T>,
    token: i64,
    yielded: DepthYield<T>,
)
    ensures
        state.after(token, yielded).codes == state.codes.push(token),
        yielded.depth_slices matches Some(slices) ==> state.after(token, yielded).depth_slices
            == slices,
        yielded.depth_slices is None ==> state.after(token, yielded).depth_slices
            == state.depth_slices,
        yielded.new_keys matches Some(keys) ==> state.after(token, yielded).past_keys == keys,
        yielded.new_keys is None ==> state.after(token, yielded).past_keys == state.past_keys,
        yielded.new_values matches Some(values) ==> state.after(token, yielded).past_values
            == values,
        yielded.new_values is None ==> state.after(token, yielded).past_values
            == state.past_values,
{
}

/// What a run returned is taken in as it is: the slices as slices, the keys as
/// keys and the values as values.
pub proof fn outputs_are_taken_as_they_are<T>(outputs: DepthOutputs<T>)
    ensures
        outputs.depth_slices matches Some(list) ==> outputs@.depth_slices == Some(list@),
        outputs.depth_slices is None ==> outputs@.depth_slices is None,
        outputs.new_keys matches Some(list) ==> outputs@.new_keys == Some(list@),
        outputs.new_keys is None ==> outputs@.new_keys is None,
        outputs.new_values matches Some(list) ==> outputs@.new_values == Some(list@),
        outputs.new_values is None ==> outputs@.new_values is None,
{
}

/// A run returns what the state asked for and nothing else, and there is none
/// once every codebook has its code.
pub proof fn runs_return_nothing_else<T>(state: DepthState<T>, yielded: DepthYield<T>)
    ensures
        state.accepts(yielded) <==> {
            &&& state.codes.len() < 8
            &&& yielded.depth_slices is Some <==> state.codes.len() == 0
            &&& yielded.new_keys is Some <==> state.codes.len() < 7
            &&& yielded.new_values is Some <==> state.codes.len() < 7
        },
{
}

/// The codebooks are gone through one by one: with `n` codes there are, the next
/// run is for codebook `n` and follows the last of them, or zero before there is
/// any; the keys and values that it is given are those of `n` positions, and
/// after eight codes there is no next run, but a frame that holds them in their
/// order.
pub proof fn codebooks_are_gone_through_in_order<T>(
    state: DepthState<T>,
    token_output: bool,
    request: Option<DepthRequest>,
    frame: Option<Frame>,
)
    requires
        is_request(state, token_output, request),
        is_frame(state, frame),
    ensures
        request is Some <==> state.codes.len() < 8,
        request matches Some(r) ==> {
            &&& r.step == state.codes.len()
            &&& state.codes.len() == 0 ==> r.prev_token == 0
            &&& state.codes.len() > 0 ==> r.prev_token == state.codes[state.codes.len() - 1]
            &&& r.past_shape@.len() == 5
            &&& r.past_shape@[0] == 6
            &&& r.past_shape@[1] == 1
            &&& r.past_shape@[2] == 8
            &&& r.past_shape@[3] == state.codes.len()
            &&& r.past_shape@[4] == 32
            &&& r.seqlens == state.codes.len()
            &&& r.total_len == state.codes.len() + 1
        },
        frame is Some <==> state.codes.len() == 8,
        frame matches Some(f) ==> forall|b: int| 0 <= b < 8 ==> #[trigger] f@[b] == state.codes[b],
{
}

/// The first output that a run is asked for is the code where the graph picks it
/// and the scores where it does not; the slices are asked for by the first run
/// alone, and the keys and values by every run but that of the last codebook.
pub proof fn outputs_are_asked_for_where_needed<T>(
    state: DepthState<T>,
    token_output: bool,
    request: Option<DepthRequest>,
)
    requires
        is_request(state, token_output, request),
    ensures
        request matches Some(r) ==> {
            let names = r.outputs@;
            let n = state.codes.len();
            &&& names.len() == if n == 0 {
                4int
            } else if n < 7 {
                3
            } else {
                1
            }
            &&& token_output ==> names[0]@ == "token_id"@
            &&& !token_output ==> names[0]@ == "logits"@
            &&& n == 0 ==> {
                &&& names[1]@ == "depth_slices"@
                &&& names[2]@ == "new_keys"@
                &&& names[3]@ == "new_values"@
            }
            &&& 0 < n < 7 ==> {
                &&& names[1]@ == "new_keys"@
                &&& names[2]@ == "new_values"@
            }
        },
{
    if let Some(r) = request {
        let views = text::views(r.outputs@);
        assert(views == outputs_of(token_output, state.step()));
        assert(forall|i: int| 0 <= i < r.outputs@.len() ==> (#[trigger] r.outputs@[i])@ == views[i]);
    }
}

/// The code that a depthformer picked is the first number that it returned;
/// without a number there is no code.
pub proof fn picked_code_is_the_first_number(ids: Seq<i64>, token: Result<i64, NodeError>)
    requires
        is_code_of(ids, token),
    ensures
        token is Ok <==> ids.len() > 0,
        token matches Ok(code) ==> code == ids[0],
        token matches Err(error) ==> error == NodeError::EmptyDepthformerToken,
{
}

} // verus!
