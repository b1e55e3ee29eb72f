//! The decoder's cache: which tensors it holds, what they are called going in
//! and coming out, and how a decoder run replaces them.

use crate::config::LfmCoreConfig;
use crate::error::NodeError;
use crate::text;
use crate::turn::DecoderReadout;
use vstd::prelude::*;

verus! {

/// Name of the convolution cache of a layer, as the decoder reads it.
pub open spec fn past_conv(layer: nat) -> Seq<char> {
    "past_conv."@ + text::numeral(layer)
}

/// Name of a key or value cache of a layer, as the decoder reads it.
pub open spec fn past_attention(layer: nat, part: Seq<char>) -> Seq<char> {
    "past_key_values."@ + text::numeral(layer) + part
}

/// What the decoder calls the new value of the tensor that it reads as `past`.
pub open spec fn present_of(past: Seq<char>) -> Option<Seq<char>> {
    if text::has_prefix(past, "past_conv."@) {
        Some("present_conv."@ + past.skip("past_conv."@.len() as int))
    } else if text::has_prefix(past, "past_key_values."@) {
        Some("present."@ + past.skip("past_key_values."@.len() as int))
    } else {
        None
    }
}

/// Names the new value of the tensor that the decoder reads as `past`; names
/// that are not those of a cache have none.
pub fn present_name(past: &str) -> (present: Option<String>)
    ensures
        present is Some <==> present_of(past@) is Some,
        present matches Some(name) ==> present_of(past@) == Some(name@),
{
    if let Some(rest) = text::after_prefix(past, "past_conv.") {
        return Some(text::concat("present_conv.", rest));
    }
    if let Some(rest) = text::after_prefix(past, "past_key_values.") {
        return Some(text::concat("present.", rest));
    }
    None
}

/// A tensor of the cache before the first decoder run.
#[derive(Debug)]
pub struct CacheSlot {
    /// Its name as the decoder reads it.
    pub past: String,
    /// The name of its new value.
    pub present: String,
    pub shape: Vec<usize>,
}

/// Model of a [`CacheSlot`].
#[verifier::ext_equal]
pub struct SlotModel {
    pub past: Seq<char>,
    pub present: Seq<char>,
    pub shape: Seq<usize>,
}

impl View for CacheSlot {
    type V = SlotModel;

    open spec fn view(&self) -> SlotModel {
        SlotModel { past: self.past@, present: self.present@, shape: self.shape@ }
    }
}

/// The models of a list of slots.
pub open spec fn slot_models(slots: Seq<CacheSlot>) -> Seq<SlotModel> {
    slots.map_values(|slot: CacheSlot| slot@)
}

/// Width of an attention head.
pub open spec fn head_dim(config: &LfmCoreConfig) -> int {
    config.hidden_size as int / if config.num_attention_heads == 0 {
        1int
    } else {
        config.num_attention_heads as int
    }
}

/// The slots of layer `layer`: one for a convolution, a key and a value for
/// anything else.
pub open spec fn layer_slots(config: &LfmCoreConfig, layer: int) -> Seq<SlotModel> {
    let attention = seq![
        1usize,
        config.num_key_value_heads,
        0usize,
        head_dim(config) as usize,
    ];
    if config.layer_types@[layer]@ == "conv"@ {
        seq![
            SlotModel {
                past: past_conv(layer as nat),
                present: "present_conv."@ + text::numeral(layer as nat),
                shape: seq![1usize, config.hidden_size, config.conv_l_cache],
            },
        ]
    } else {
        seq![
            SlotModel {
                past: past_attention(layer as nat, ".key"@),
                present: "present."@ + text::numeral(layer as nat) + ".key"@,
                shape: attention,
            },
            SlotModel {
                past: past_attention(layer as nat, ".value"@),
                present: "present."@ + text::numeral(layer as nat) + ".value"@,
                shape: attention,
            },
        ]
    }
}

/// The slots of the first `layers` layers, in the order of the layers.
pub open spec fn slots_of(config: &LfmCoreConfig, layers: int) -> Seq<SlotModel>
    decreases layers,
{
    if layers <= 0 {
        Seq::empty()
    } else {
        slots_of(config, layers - 1) + layer_slots(config, layers - 1)
    }
}

fn attention_shape(config: &LfmCoreConfig, head: usize) -> (shape: Vec<usize>)
    ensures
        shape@ == seq![1usize, config.num_key_value_heads, 0usize, head],
{
    let mut shape: Vec<usize> = Vec::new();
    shape.push(1);
    shape.push(config.num_key_value_heads);
    shape.push(0);
    shape.push(head);
    assert(shape@ =~= seq![1usize, config.num_key_value_heads, 0usize, head]);
    shape
}

/// The tensors that the cache holds before the first decoder run. Those of
/// convolutions are filled with zeros, the others hold nothing yet.
pub fn init_decoder_cache(config: &LfmCoreConfig) -> (slots: Vec<CacheSlot>)
    ensures
        slot_models(slots@) == slots_of(config, config.layer_types@.len() as int),
{
    let mut slots: Vec<CacheSlot> = Vec::new();
    let heads: usize = if config.num_attention_heads == 0 {
        1
    } else {
        config.num_attention_heads
    };
    let head: usize = config.hidden_size / heads;
    assert(head == head_dim(config)) by {
        vstd::arithmetic::div_mod::lemma_div_pos_is_pos(config.hidden_size as int, heads as int);
    }
    assert(slot_models(slots@) =~= Seq::<SlotModel>::empty());
    for layer in 0..config.layer_types.len()
        invariant
            head == head_dim(config),
            slot_models(slots@) == slots_of(config, layer as int),
    {
        let ghost before = slots@;
        let number = text::decimal(layer as u64);
        if text::same_text(config.layer_types[layer].as_str(), "conv") {
            let mut shape: Vec<usize> = Vec::new();
            shape.push(1);
            shape.push(config.hidden_size);
            shape.push(config.conv_l_cache);
            assert(shape@ =~= seq![1usize, config.hidden_size, config.conv_l_cache]);
            slots.push(
                CacheSlot {
                    past: text::concat("past_conv.", number.as_str()),
                    present: text::concat("present_conv.", number.as_str()),
                    shape,
                },
            );
        } else {
            let mut past = text::concat("past_key_values.", number.as_str());
            let mut present = text::concat("present.", number.as_str());
            past.append(".key");
            present.append(".key");
            slots.push(CacheSlot { past, present, shape: attention_shape(config, head) });
            let mut past = text::concat("past_key_values.", number.as_str());
            let mut present = text::concat("present.", number.as_str());
            past.append(".value");
            present.append(".value");
            slots.push(CacheSlot { past, present, shape: attention_shape(config, head) });
        }
        assert(slot_models(slots@) =~= slot_models(before) + layer_slots(config, layer as int));
    }
    slots
}

/// Two slots of different layers, or of different places in one layer, have
/// different names, going in and coming out.
proof fn slots_of_layers_differ(config: &LfmCoreConfig, a: int, i: int, b: int, j: int)
    requires
        0 <= a,
        0 <= b,
        0 <= i < layer_slots(config, a).len(),
        0 <= j < layer_slots(config, b).len(),
        a != b || i != j,
    ensures
        layer_slots(config, a)[i].past != layer_slots(config, b)[j].past,
        layer_slots(config, a)[i].present != layer_slots(config, b)[j].present,
{
    reveal_strlit("past_conv.");
    reveal_strlit("past_key_values.");
    reveal_strlit("present_conv.");
    reveal_strlit("present.");
    reveal_strlit(".key");
    reveal_strlit(".value");
    let x = layer_slots(config, a)[i];
    let y = layer_slots(config, b)[j];
    let m = text::numeral(a as nat);
    let n = text::numeral(b as nat);
    let x_conv = layer_slots(config, a).len() == 1;
    let y_conv = layer_slots(config, b).len() == 1;
    if x.past == y.past {
        assert(x.past[5] == y.past[5]);
        assert(x_conv == y_conv);
        if x_conv {
            assert(x.past.skip(10) =~= m);
            assert(y.past.skip(10) =~= n);
        } else {
            assert(x.past[x.past.len() - 1] == y.past[y.past.len() - 1]);
            assert(i == j);
            let tail: int = if i == 0 { 4 } else { 6 };
            assert(x.past.subrange(16, x.past.len() - tail) =~= m);
            assert(y.past.subrange(16, y.past.len() - tail) =~= n);
        }
        text::numeral_is_injective(a as nat, b as nat);
    }
    if x.present == y.present {
        assert(x.present[7] == y.present[7]);
        assert(x_conv == y_conv);
        if x_conv {
            assert(x.present.skip(13) =~= m);
            assert(y.present.skip(13) =~= n);
        } else {
            assert(x.present[x.present.len() - 1] == y.present[y.present.len() - 1]);
            assert(i == j);
            let tail: int = if i == 0 { 4 } else { 6 };
            assert(x.present.subrange(8, x.present.len() - tail) =~= m);
            assert(y.present.subrange(8, y.present.len() - tail) =~= n);
        }
        text::numeral_is_injective(a as nat, b as nat);
    }
}

/// Every slot is that of some layer.
proof fn slot_has_a_layer(config: &LfmCoreConfig, layers: int, at: int) -> (place: (int, int))
    requires
        0 <= at < slots_of(config, layers).len(),
    ensures
        0 <= place.0 < layers,
        0 <= place.1 < layer_slots(config, place.0).len(),
        slots_of(config, layers)[at] == layer_slots(config, place.0)[place.1],
    decreases layers,
{
    let earlier = slots_of(config, layers - 1);
    if at < earlier.len() {
        slot_has_a_layer(config, layers - 1, at)
    } else {
        (layers - 1, at - earlier.len())
    }
}

/// No two tensors of the cache share a name, going in or coming out.
pub proof fn cache_names_are_distinct(config: &LfmCoreConfig, layers: int, i: int, j: int)
    requires
        0 <= i < slots_of(config, layers).len(),
        0 <= j < slots_of(config, layers).len(),
        i != j,
    ensures
        slots_of(config, layers)[i].past != slots_of(config, layers)[j].past,
        slots_of(config, layers)[i].present != slots_of(config, layers)[j].present,
    decreases layers,
{
    let earlier = slots_of(config, layers - 1);
    if i < earlier.len() && j < earlier.len() {
        cache_names_are_distinct(config, layers - 1, i, j);
    } else if i < earlier.len() {
        let place = slot_has_a_layer(config, layers - 1, i);
        slots_of_layers_differ(config, place.0, place.1, layers - 1, j - earlier.len());
    } else if j < earlier.len() {
        let place = slot_has_a_layer(config, layers - 1, j);
        slots_of_layers_differ(config, layers - 1, i - earlier.len(), place.0, place.1);
    } else {
        slots_of_layers_differ(
            config,
            layers - 1,
            i - earlier.len(),
            layers - 1,
            j - earlier.len(),
        );
    }
}

/// Every tensor of the cache comes out under the name that its own name gives.
pub proof fn cache_comes_out_under_its_name(config: &LfmCoreConfig, layers: int, at: int)
    requires
        0 <= at < slots_of(config, layers).len(),
    ensures
        present_of(slots_of(config, layers)[at].past) == Some(slots_of(config, layers)[at].present),
{
    reveal_strlit("past_conv.");
    reveal_strlit("past_key_values.");
    let place = slot_has_a_layer(config, layers, at);
    let slot = slots_of(config, layers)[at];
    let number = text::numeral(place.0 as nat);
    if layer_slots(config, place.0).len() == 1 {
        assert(slot.past.take(10) =~= "past_conv."@);
        assert(slot.past.skip(10) =~= number);
    } else {
        let part = if place.1 == 0 { ".key"@ } else { ".value"@ };
        assert(slot.past =~= "past_key_values."@ + number + part);
        assert(slot.past.take(16) =~= "past_key_values."@);
        assert(slot.past.take(10)[5] != "past_conv."@[5]);
        assert(slot.past.skip(16) =~= number + part);
        assert("present."@ + (number + part) =~= "present."@ + number + part);
    }
}

/// The cache of a turn: its tensors by slot, and how many positions the
/// decoder has read.
#[derive(Debug)]
pub struct DecoderCache<V> {
    slots: Vec<CacheSlot>,
    values: Vec<V>,
    total_len: usize,
}

/// Model of a [`DecoderCache`].
#[verifier::ext_equal]
pub struct CacheModel<V> {
    pub slots: Seq<SlotModel>,
    pub values: Seq<V>,
    pub total_len: nat,
}

impl<V> View for DecoderCache<V> {
    type V = CacheModel<V>;

    closed spec fn view(&self) -> CacheModel<V> {
        CacheModel {
            slots: slot_models(self.slots@),
            values: self.values@,
            total_len: self.total_len as nat,
        }
    }
}

impl<V> CacheModel<V> {
    /// One tensor for each slot.
    pub open spec fn valid(self) -> bool {
        self.slots.len() == self.values.len()
    }
}

/// What a decoder run is given and asked for.
#[derive(Debug)]
pub struct DecoderStep {
    /// Positions that the attention mask covers.
    pub total_len: usize,
    /// The output to read.
    pub readout: &'static str,
    /// The outputs that replace the tensors of the cache, slot by slot.
    pub cache_outputs: Vec<String>,
}

/// The output that a readout reads; a graph that picks the token itself has
/// one for that.
pub open spec fn readout_name(readout: DecoderReadout, token_output: bool) -> Seq<char> {
    match readout {
        DecoderReadout::Logits => if token_output {
            "token_id"@
        } else {
            "logits"@
        },
        DecoderReadout::HiddenStates => "hidden_states"@,
    }
}

/// Whether `step` is what a decoder run over `seq_len` positions is given and
/// asked for.
pub open spec fn is_step<V>(
    cache: CacheModel<V>,
    seq_len: usize,
    readout: DecoderReadout,
    token_output: bool,
    step: DecoderStep,
) -> bool {
    &&& step.total_len == cache.total_len + seq_len
    &&& step.readout@ == readout_name(readout, token_output)
    &&& text::views(step.cache_outputs@) == cache.slots.map_values(|slot: SlotModel| slot.present)
}

/// Whether the output at `at` is missing and none before it.
pub open spec fn is_first_missing<V>(outputs: Seq<Option<V>>, at: int) -> bool {
    &&& 0 <= at < outputs.len()
    &&& outputs[at] is None
    &&& forall|i: int| 0 <= i < at ==> (#[trigger] outputs[i]) is Some
}

/// Whether `error` says that the tensor called `name` is missing.
pub open spec fn names_missing(error: NodeError, name: Seq<char>) -> bool {
    error matches NodeError::MissingCacheTensor(missing) && missing@ == name
}

/// Whether a cache takes over the tensors of a decoder run, or names the first
/// that is missing.
pub open spec fn takes_over<V>(
    before: CacheModel<V>,
    outputs: Seq<Option<V>>,
    total_len: usize,
    after: CacheModel<V>,
    result: Result<(), NodeError>,
) -> bool {
    match result {
        Ok(_) => {
            &&& forall|i: int| 0 <= i < outputs.len() ==> (#[trigger] outputs[i]) is Some
            &&& after == (CacheModel {
                slots: before.slots,
                values: outputs.map_values(|output: Option<V>| output->0),
                total_len: total_len as nat,
            })
        },
        Err(error) => {
            &&& after == before
            &&& exists|i: int| #[trigger]
                is_first_missing(outputs, i) && names_missing(error, before.slots[i].present)
        },
    }
}

impl<V> DecoderCache<V> {
    /// A cache before the first decoder run, from its tensors by slot.
    pub fn new(slots: Vec<CacheSlot>, values: Vec<V>) -> (cache: DecoderCache<V>)
        requires
            slots@.len() == values@.len(),
        ensures
            cache@.slots == slot_models(slots@),
            cache@.values == values@,
            cache@.total_len == 0,
            cache@.valid(),
    {
        DecoderCache { slots, values, total_len: 0 }
    }

    /// The slots of the cache.
    pub fn slots(&self) -> (slots: &Vec<CacheSlot>)
        ensures
            slot_models(slots@) == self@.slots,
    {
        &self.slots
    }

    /// The tensors of the cache, slot by slot.
    pub fn values(&self) -> (values: &Vec<V>)
        ensures
            values@ == self@.values,
    {
        &self.values
    }

    /// The number of positions that the decoder has read.
    pub fn total_len(&self) -> (total_len: usize)
        ensures
            total_len == self@.total_len,
    {
        self.total_len
    }

    /// A cache like this one over copies of its tensors.
    pub fn with_values(&self, values: Vec<V>) -> (cache: DecoderCache<V>)
        requires
            values@.len() == self@.slots.len(),
        ensures
            cache@ == (CacheModel { values: values@, ..self@ }),
            cache@.valid(),
    {
        let mut slots: Vec<CacheSlot> = Vec::new();
        for i in 0..self.slots.len()
            invariant
                slots@.len() == i,
                slot_models(slots@) == slot_models(self.slots@).take(i as int),
        {
            let slot = &self.slots[i];
            let mut shape: Vec<usize> = Vec::new();
            for j in 0..slot.shape.len()
                invariant
                    shape@ == slot.shape@.take(j as int),
            {
                shape.push(slot.shape[j]);
                assert(shape@ =~= slot.shape@.take(j + 1));
            }
            assert(shape@ =~= slot.shape@);
            let ghost before = slots@;
            slots.push(
                CacheSlot { past: slot.past.clone(), present: slot.present.clone(), shape },
            );
            assert(slot_models(slots@) =~= slot_models(before).push(slot@));
            assert(slot_models(slots@) =~= slot_models(self.slots@).take(i + 1));
        }
        assert(slot_models(slots@) =~= slot_models(self.slots@));
        DecoderCache { slots, values, total_len: self.total_len }
    }

    /// What a decoder run over `seq_len` positions is given and asked for.
    pub fn plan_step(&self, seq_len: usize, readout: DecoderReadout, token_output: bool) -> (step:
        DecoderStep)
        requires
            self@.total_len + seq_len <= usize::MAX,
        ensures
            is_step(self@, seq_len, readout, token_output, step),
            step.total_len == self@.total_len + seq_len,
            step.readout@ == readout_name(readout, token_output),
            text::views(step.cache_outputs@) == self@.slots.map_values(
                |slot: SlotModel| slot.present,
            ),
    {
        let mut cache_outputs: Vec<String> = Vec::new();
        for i in 0..self.slots.len()
            invariant
                text::views(cache_outputs@) == self@.slots.map_values(
                    |slot: SlotModel| slot.present,
                ).take(i as int),
        {
            let ghost before = cache_outputs@;
            let name = self.slots[i].present.clone();
            cache_outputs.push(name);
            assert(text::views(cache_outputs@) =~= text::views(before).push(name@));
            assert(text::views(cache_outputs@) =~= self@.slots.map_values(
                |slot: SlotModel| slot.present,
            ).take(i + 1));
        }
        assert(text::views(cache_outputs@) =~= self@.slots.map_values(
            |slot: SlotModel| slot.present,
        ));
        let name = match readout {
            DecoderReadout::Logits => if token_output {
                "token_id"
            } else {
                "logits"
            },
            DecoderReadout::HiddenStates => "hidden_states",
        };
        DecoderStep { total_len: self.total_len + seq_len, readout: name, cache_outputs }
    }

    /// Takes over the tensors that a decoder run returned, slot by slot. Where
    /// one is missing nothing changes, and the first of them is named.
    pub fn absorb(&mut self, outputs: Vec<Option<V>>, total_len: usize) -> (result: Result<
        (),
        NodeError,
    >)
        requires
            old(self)@.valid(),
            outputs@.len() == old(self)@.slots.len(),
        ensures
            final(self)@.valid(),
            takes_over(old(self)@, outputs@, total_len, final(self)@, result),
            match result {
                Ok(_) => {
                    &&& forall|i: int| 0 <= i < outputs@.len() ==> (#[trigger] outputs@[i]) is Some
                    &&& final(self)@ == (CacheModel {
                        slots: old(self)@.slots,
                        values: outputs@.map_values(|output: Option<V>| output->0),
                        total_len: total_len as nat,
                    })
                },
                Err(error) => {
                    &&& final(self)@ == old(self)@
                    &&& exists|i: int| #[trigger]
                        is_first_missing(outputs@, i) && names_missing(
                            error,
                            old(self)@.slots[i].present,
                        )
                },
            },
    {
        let mut values: Vec<V> = Vec::new();
        let ghost given = outputs@;
        let mut rest = outputs;
        for i in 0..self.slots.len()
            invariant
                given == outputs@,
                *self == *old(self),
                self@.valid(),
                given.len() == self.slots@.len(),
                rest@ == given.skip(i as int),
                forall|j: int| 0 <= j < i ==> (#[trigger] given[j]) is Some,
                values@ == given.take(i as int).map_values(|output: Option<V>| output->0),
        {
            let output = rest.remove(0);
            assert(output == given[i as int]);
            match output {
                Some(value) => {
                    values.push(value);
                    assert(rest@ =~= given.skip(i + 1));
                    assert(values@ =~= given.take(i + 1).map_values(
                        |output: Option<V>| output->0,
                    ));
                },
                None => {
                    let name = self.slots[i].present.clone();
                    assert(self@.slots[i as int].present == name@);
                    assert(is_first_missing(given, i as int));
                    return Err(NodeError::MissingCacheTensor(name));
                },
            }
        }
        assert(given.take(given.len() as int) =~= given);
        self.values = values;
        self.total_len = total_len;
        Ok(())
    }
}

/// Whether `copy` may hand back `outcome` for the tensor called `name`.
pub open spec fn may_copy<V, E, C: Fn(&String, &V) -> Result<V, E>>(
    copy: C,
    name: Seq<char>,
    value: V,
    outcome: Result<V, E>,
) -> bool {
    exists|past: String| past@ == name && #[trigger] copy.ensures((&past, &value), outcome)
}

/// Whether the first `count` tensors of `cache` were copied to `values`.
pub open spec fn copies_values<V, E, C: Fn(&String, &V) -> Result<V, E>>(
    copy: C,
    cache: CacheModel<V>,
    count: int,
    values: Seq<V>,
) -> bool {
    &&& values.len() == count
    &&& forall|i: int|
        0 <= i < count ==> may_copy(
            copy,
            cache.slots[i].past,
            cache.values[i],
            Ok(#[trigger] values[i]),
        )
}

/// Whether `result` is a copy of `cache`: the same slots and positions over
/// copies of the tensors, or what was wrong with the first that has none.
pub open spec fn clones<V, E, C: Fn(&String, &V) -> Result<V, E>>(
    copy: C,
    cache: CacheModel<V>,
    result: Result<DecoderCache<V>, E>,
) -> bool {
    match result {
        Ok(cloned) => {
            &&& cloned@.valid()
            &&& cloned@.slots == cache.slots
            &&& cloned@.total_len == cache.total_len
            &&& copies_values(copy, cache, cache.values.len() as int, cloned@.values)
        },
        Err(error) => exists|values: Seq<V>|
            {
                &&& values.len() < cache.values.len()
                &&& #[trigger] copies_values(copy, cache, values.len() as int, values)
                &&& may_copy(
                    copy,
                    cache.slots[values.len() as int].past,
                    cache.values[values.len() as int],
                    Err(error),
                )
            },
    }
}

/// A cache like `cache` over copies of its tensors. A tensor is copied by
/// `copy`, which is told its name too.
pub fn clone_decoder_cache<V, E, C: Fn(&String, &V) -> Result<V, E>>(
    cache: &DecoderCache<V>,
    copy: &C,
) -> (result: Result<DecoderCache<V>, E>)
    requires
        cache@.valid(),
        forall|name: String, value: V| #[trigger] copy.requires((&name, &value)),
    ensures
        clones(*copy, cache@, result),
{
    let mut values: Vec<V> = Vec::new();
    for i in 0..cache.values.len()
        invariant
            cache@.valid(),
            forall|name: String, value: V| #[trigger] copy.requires((&name, &value)),
            copies_values(*copy, cache@, i as int, values@),
    {
        let ghost before = values@;
        let outcome = copy(&cache.slots[i].past, &cache.values[i]);
        assert(cache@.slots[i as int].past == cache.slots@[i as int].past@);
        assert(copy.ensures((&cache.slots@[i as int].past, &cache.values@[i as int]), outcome));
        assert(may_copy(*copy, cache@.slots[i as int].past, cache@.values[i as int], outcome));
        match outcome {
            Ok(value) => {
                values.push(value);
                assert forall|j: int| 0 <= j < i + 1 implies may_copy(
                    *copy,
                    cache@.slots[j].past,
                    cache@.values[j],
                    Ok(#[trigger] values@[j]),
                ) by {
                    if j < i {
                        assert(values@[j] == before[j]);
                    }
                }
            },
            Err(error) => {
                assert(copies_values(*copy, cache@, values@.len() as int, values@));
                return Err(error);
            },
        }
    }
    Ok(cache.with_values(values))
}

/// Whether `token` is the token that a graph returned in `ids`.
pub open spec fn is_token_of(ids: Seq<i64>, token: Result<u32, NodeError>) -> bool {
    if ids.len() == 0 {
        token == Err::<u32, NodeError>(NodeError::EmptyDecoderToken)
    } else {
        token matches Ok(id) && id == ids[0] % 0x1_0000_0000
    }
}

/// The token that a graph returned: the first of `ids`, of which the low 32
/// bits count.
pub fn token_from_output(ids: &Vec<i64>) -> (token: Result<u32, NodeError>)
    ensures
        is_token_of(ids@, token),
        ids@.len() == 0 ==> token == Err::<u32, NodeError>(NodeError::EmptyDecoderToken),
        ids@.len() > 0 ==> (token matches Ok(id) && id == ids@[0] % 0x1_0000_0000),
{
    if ids.len() == 0 {
        return Err(NodeError::EmptyDecoderToken);
    }
    let id: i64 = ids[0];
    let low: u32 = #[verifier::truncate]
    (id as u32);
    assert(low == id % 0x1_0000_0000) by (bit_vector)
        requires
            low == id as u32,
    ;
    Ok(low)
}

/// The names of the cache: a tensor of a convolution goes in as `past_conv.` and
/// the number of its layer and comes out as `present_conv.` and that number,
/// and one of an attention goes in as `past_key_values.` and the number and
/// comes out as `present.` and the number, with `.key` or `.value` behind both.
pub proof fn cache_is_named_by_layer(layer: nat, rest: Seq<char>)
    ensures
        past_conv(layer) == "past_conv."@ + text::numeral(layer),
        past_attention(layer, rest) == "past_key_values."@ + text::numeral(layer) + rest,
        present_of("past_conv."@ + rest) == Some("present_conv."@ + rest),
        present_of("past_key_values."@ + rest) == Some("present."@ + rest),
{
    reveal_strlit("past_conv.");
    reveal_strlit("past_key_values.");
    let conv = "past_conv."@ + rest;
    let attention = "past_key_values."@ + rest;
    assert(conv.take(10) =~= "past_conv."@ && conv.skip(10) =~= rest);
    assert(attention.take(16) =~= "past_key_values."@ && attention.skip(16) =~= rest);
    assert(attention.take(10)[5] != "past_conv."@[5]);
}

/// A name that begins with neither has no tensor of the cache.
pub proof fn other_names_are_no_cache(name: Seq<char>)
    requires
        !text::has_prefix(name, "past_conv."@),
        !text::has_prefix(name, "past_key_values."@),
    ensures
        present_of(name) is None,
{
}

/// Where the tensors of layer `layer` stand in the cache: behind those of all
/// layers before it. A convolution has one, of one by the hidden size by the
/// length of its cache; anything else has two, first the keys and then the
/// values, of one by the key and value heads by no position by the width of a
/// head.
pub proof fn layers_have_their_tensors(config: &LfmCoreConfig, layer: int) -> (at: int)
    requires
        0 <= layer < config.layer_types@.len(),
    ensures
        at == slots_of(config, layer).len(),
        ({
            let slots = slots_of(config, config.layer_types@.len() as int);
            let heads = if config.num_attention_heads == 0 {
                1
            } else {
                config.num_attention_heads as int
            };
            let number = text::numeral(layer as nat);
            if config.layer_types@[layer]@ == "conv"@ {
                &&& 0 <= at < slots.len()
                &&& slots[at].past == "past_conv."@ + number
                &&& slots[at].present == "present_conv."@ + number
                &&& slots[at].shape == seq![1usize, config.hidden_size, config.conv_l_cache]
                &&& slots_of(config, layer + 1).len() == at + 1
            } else {
                &&& 0 <= at < slots.len() - 1
                &&& slots[at].past == "past_key_values."@ + number + ".key"@
                &&& slots[at].present == "present."@ + number + ".key"@
                &&& slots[at + 1].past == "past_key_values."@ + number + ".value"@
                &&& slots[at + 1].present == "present."@ + number + ".value"@
                &&& slots[at].shape.len() == 4
                &&& slots[at].shape[0] == 1
                &&& slots[at].shape[1] == config.num_key_value_heads
                &&& slots[at].shape[2] == 0
                &&& slots[at].shape[3] * heads <= config.hidden_size < (slots[at].shape[3] + 1)
                    * heads
                &&& slots[at + 1].shape == slots[at].shape
                &&& slots_of(config, layer + 1).len() == at + 2
            }
        }),
{
    let at = slots_of(config, layer).len() as int;
    slots_of_more_layers(config, layer + 1, config.layer_types@.len() as int);
    let heads = if config.num_attention_heads == 0 {
        1
    } else {
        config.num_attention_heads as int
    };
    let hidden = config.hidden_size as int;
    vstd::arithmetic::div_mod::lemma_fundamental_div_mod(hidden, heads);
    vstd::arithmetic::div_mod::lemma_mod_bound(hidden, heads);
    vstd::arithmetic::div_mod::lemma_div_pos_is_pos(hidden, heads);
    let head = hidden / heads;
    assert(head <= hidden) by {
        vstd::arithmetic::div_mod::lemma_div_is_ordered_by_denominator(hidden, 1, heads);
        vstd::arithmetic::div_mod::lemma_div_basics(hidden);
    }
    assert(head * heads <= hidden < (head + 1) * heads) by (nonlinear_arith)
        requires
            hidden == heads * head + hidden % heads,
            0 <= hidden % heads < heads,
    ;
    let upto = slots_of(config, layer + 1);
    let own = layer_slots(config, layer);
    assert(upto == slots_of(config, layer) + own);
    assert(upto[at] == own[0]);
    if own.len() == 2 {
        assert(upto[at + 1] == own[1]);
    }
    at
}

/// The first layers have the first tensors.
proof fn slots_of_more_layers(config: &LfmCoreConfig, few: int, many: int)
    requires
        0 <= few <= many,
    ensures
        slots_of(config, few).len() <= slots_of(config, many).len(),
        slots_of(config, many).take(slots_of(config, few).len() as int) == slots_of(config, few),
        forall|i: int|
            0 <= i < slots_of(config, few).len() ==> #[trigger] slots_of(config, few)[i]
                == slots_of(config, many)[i],
    decreases many - few,
{
    let small = slots_of(config, few);
    if few < many {
        slots_of_more_layers(config, few, many - 1);
        let nearly = slots_of(config, many - 1);
        let all = slots_of(config, many);
        assert forall|i: int| 0 <= i < small.len() implies #[trigger] small[i] == all[i] by {
            assert(small[i] == nearly[i]);
        }
    }
    assert(slots_of(config, many).take(small.len() as int) =~= small);
}

/// A decoder run is read by the output that fits: hidden states where those are
/// asked for, and otherwise the token of a graph that picks it, or the scores.
pub proof fn readouts_have_their_names(token_output: bool)
    ensures
        readout_name(DecoderReadout::HiddenStates, token_output) == "hidden_states"@,
        readout_name(DecoderReadout::Logits, true) == "token_id"@,
        readout_name(DecoderReadout::Logits, false) == "logits"@,
{
}

/// The output that is named as missing is the first one that is, and every
/// output before it is there.
pub proof fn first_missing_is_named<V>(outputs: Seq<Option<V>>, at: int, other: int)
    requires
        is_first_missing(outputs, at),
        0 <= other < outputs.len(),
        outputs[other] is None,
    ensures
        outputs[at] is None,
        0 <= at <= other,
{
    if other < at {
        assert(outputs[other] is Some);
    }
}

/// A copied cache has the slots and positions of the one that it was copied
/// from, and in every slot a copy of the tensor that stands there, made under
/// that slot's own name. A copy that fails does so for a tensor that could not
/// be copied.
pub proof fn copies_stand_in_their_slots<V, E, C: Fn(&String, &V) -> Result<V, E>>(
    copy: C,
    cache: CacheModel<V>,
    result: Result<DecoderCache<V>, E>,
    i: int,
)
    requires
        clones(copy, cache, result),
        cache.valid(),
        0 <= i < cache.values.len(),
    ensures
        result matches Ok(cloned) ==> {
            &&& cloned@.slots == cache.slots
            &&& cloned@.total_len == cache.total_len
            &&& cloned@.values.len() == cache.values.len()
            &&& exists|name: String|
                name@ == cache.slots[i].past && #[trigger] copy.ensures(
                    (&name, &cache.values[i]),
                    Ok(cloned@.values[i]),
                )
        },
        result matches Err(error) ==> exists|at: int, name: String|
            {
                &&& 0 <= at < cache.values.len()
                &&& name@ == cache.slots[at].past
                &&& #[trigger] copy.ensures((&name, &cache.values[at]), Err(error))
            },
{
    match result {
        Ok(cloned) => {
            assert(may_copy(copy, cache.slots[i].past, cache.values[i], Ok(cloned@.values[i])));
        },
        Err(error) => {
            let values = choose|values: Seq<V>|
                {
                    &&& values.len() < cache.values.len()
                    &&& #[trigger] copies_values(copy, cache, values.len() as int, values)
                    &&& may_copy(
                        copy,
                        cache.slots[values.len() as int].past,
                        cache.values[values.len() as int],
                        Err(error),
                    )
                };
            let at = values.len() as int;
            let name = choose|past: String|
                past@ == cache.slots[at].past && #[trigger] copy.ensures(
                    (&past, &cache.values[at]),
                    Err(error),
                );
            assert(copy.ensures((&name, &cache.values[at]), Err(error)));
        },
    }
}

/// A decoder run covers the positions read before and the new ones, reads the
/// output of its readout, and returns a new tensor for every slot, in the order
/// of the slots.
pub proof fn step_covers_every_position<V>(
    cache: CacheModel<V>,
    seq_len: usize,
    readout: DecoderReadout,
    token_output: bool,
    step: DecoderStep,
)
    requires
        is_step(cache, seq_len, readout, token_output, step),
    ensures
        step.total_len - seq_len == cache.total_len,
        readout == DecoderReadout::HiddenStates ==> step.readout@ == "hidden_states"@,
        readout == DecoderReadout::Logits && token_output ==> step.readout@ == "token_id"@,
        readout == DecoderReadout::Logits && !token_output ==> step.readout@ == "logits"@,
        step.cache_outputs@.len() == cache.slots.len(),
        forall|i: int|
            0 <= i < cache.slots.len() ==> (#[trigger] step.cache_outputs@[i])@
                == cache.slots[i].present,
{
    let names = cache.slots.map_values(|slot: SlotModel| slot.present);
    assert(names.len() == cache.slots.len());
    assert forall|i: int| 0 <= i < cache.slots.len() implies (#[trigger] step.cache_outputs@[i])@
        == cache.slots[i].present by {
        assert(text::views(step.cache_outputs@)[i] == names[i]);
    }
}

/// A cache takes a decoder run over all at once: where every tensor is there,
/// each goes into its own slot and the positions are those of the run; where one
/// is missing nothing changes, and the first that is missing is named.
pub proof fn cache_is_taken_over_at_once<V>(
    before: CacheModel<V>,
    outputs: Seq<Option<V>>,
    total_len: usize,
    after: CacheModel<V>,
    result: Result<(), NodeError>,
)
    requires
        takes_over(before, outputs, total_len, after, result),
    ensures
        result is Ok <==> forall|i: int| 0 <= i < outputs.len() ==> (#[trigger] outputs[i]) is Some,
        after.slots == before.slots,
        result is Ok ==> {
            &&& after.total_len == total_len
            &&& after.values.len() == outputs.len()
            &&& forall|i: int|
                0 <= i < outputs.len() ==> #[trigger] outputs[i] == Some(after.values[i])
        },
        result matches Err(error) ==> {
            &&& after.total_len == before.total_len
            &&& after.values == before.values
            &&& exists|at: int|
                {
                    &&& 0 <= at < outputs.len()
                    &&& #[trigger] outputs[at] is None
                    &&& forall|i: int| 0 <= i < at ==> (#[trigger] outputs[i]) is Some
                    &&& error matches NodeError::MissingCacheTensor(name)
                    &&& name@ == before.slots[at].present
                }
        },
{
    if let Err(error) = result {
        let at = choose|i: int| #[trigger]
            is_first_missing(outputs, i) && names_missing(error, before.slots[i].present);
        assert(outputs[at] is None);
    }
}

/// The token of a graph is the first number that it returned, up to a multiple
/// of two to the 32nd; without a number there is no token.
pub proof fn token_is_the_first_number(ids: Seq<i64>, token: Result<u32, NodeError>)
    requires
        is_token_of(ids, token),
    ensures
        token is Ok <==> ids.len() > 0,
        token matches Ok(id) ==> (ids[0] - id) % 0x1_0000_0000 == 0,
        token matches Ok(id) ==> (0 <= ids[0] < 0x1_0000_0000 ==> id == ids[0]),
        token matches Err(error) ==> error == NodeError::EmptyDecoderToken,
{
}

} // verus!
