//! Decoder caches of prompts that were read before, by the prompt.

use crate::cache::{self, CacheModel, DecoderCache};
use crate::store::KeyedStore;
use vstd::prelude::*;

verus! {

/// Decoder caches by the prompt that they hold.
#[derive(Debug)]
pub struct PrefixCaches<V> {
    caches: KeyedStore<DecoderCache<V>>,
}

impl<V> View for PrefixCaches<V> {
    type V = Map<Seq<char>, CacheModel<V>>;

    closed spec fn view(&self) -> Map<Seq<char>, CacheModel<V>> {
        self.caches@.map_values(|cache: DecoderCache<V>| cache@)
    }
}

/// Every cache that is kept has one tensor for each slot.
pub open spec fn all_valid<V>(caches: Map<Seq<char>, CacheModel<V>>) -> bool {
    forall|prefix: Seq<char>| #[trigger] caches.contains_key(prefix) ==> caches[prefix].valid()
}

/// What a call for the cache of `prefix` does and hands back. A cache that is
/// kept is copied, and nothing else happens. Otherwise the prefix is read; the
/// cache that comes of it is kept where it was read and copied without failure.
pub open spec fn answers<
    V,
    E,
    R: FnOnce() -> Result<DecoderCache<V>, E>,
    C: Fn(&String, &V) -> Result<V, E>,
>(
    read: R,
    copy: C,
    before: Map<Seq<char>, CacheModel<V>>,
    prefix: Seq<char>,
    after: Map<Seq<char>, CacheModel<V>>,
    result: Result<DecoderCache<V>, E>,
) -> bool {
    if before.contains_key(prefix) {
        after == before && cache::clones(copy, before[prefix], result)
    } else {
        exists|outcome: Result<DecoderCache<V>, E>|
            {
                &&& #[trigger] read.ensures((), outcome)
                &&& match outcome {
                    Ok(cache) => {
                        &&& cache::clones(copy, cache@, result)
                        &&& after == if result is Ok {
                            before.insert(prefix, cache@)
                        } else {
                            before
                        }
                    },
                    Err(error) => after == before && result == Err::<DecoderCache<V>, E>(error),
                }
            }
    }
}

impl<V> PrefixCaches<V> {
    /// No caches yet.
    pub fn new() -> (caches: PrefixCaches<V>)
        ensures
            caches@ == Map::<Seq<char>, CacheModel<V>>::empty(),
    {
        let caches = PrefixCaches { caches: KeyedStore::new() };
        assert(caches@ =~= Map::<Seq<char>, CacheModel<V>>::empty());
        caches
    }

    /// The cache of `prefix`, where it was read before. Otherwise it has to be
    /// read, and its cache kept.
    pub fn find(&self, prefix: &str) -> (cache: Option<&DecoderCache<V>>)
        ensures
            cache is Some <==> self@.contains_key(prefix@),
            cache matches Some(found) ==> found@ == self@[prefix@],
    {
        self.caches.get(prefix)
    }

    /// Keeps the cache of `prefix` for the turns to come.
    pub fn keep(&mut self, prefix: &str, cache: DecoderCache<V>)
        ensures
            final(self)@ == old(self)@.insert(prefix@, cache@),
    {
        let ghost kept = cache@;
        self.caches.insert(prefix, cache);
        assert(self@ =~= old(self)@.insert(prefix@, kept));
    }

    /// A cache that holds `prefix`, for a turn to go on from. It is a copy of
    /// the one that was kept; only where there is none yet is the prefix read.
    pub fn audio_prefix_cache<
        E,
        R: FnOnce() -> Result<DecoderCache<V>, E>,
        C: Fn(&String, &V) -> Result<V, E>,
    >(&mut self, prefix: &str, read: R, copy: C) -> (result: Result<DecoderCache<V>, E>)
        requires
            all_valid(old(self)@),
            !old(self)@.contains_key(prefix@) ==> read.requires(()),
            forall|cache: DecoderCache<V>| #[trigger]
                read.ensures((), Ok(cache)) ==> cache@.valid(),
            forall|name: String, value: V| #[trigger] copy.requires((&name, &value)),
        ensures
            answers(read, copy, old(self)@, prefix@, final(self)@, result),
            all_valid(final(self)@),
    {
        if let Some(cache) = self.find(prefix) {
            return cache::clone_decoder_cache(cache, &copy);
        }
        let outcome = read();
        assert(read.ensures((), outcome));
        match outcome {
            Ok(cache) => {
                let result = cache::clone_decoder_cache(&cache, &copy);
                if result.is_ok() {
                    self.keep(prefix, cache);
                }
                result
            },
            Err(error) => Err(error),
        }
    }
}

/// `caches` after more were kept, the first of `later` first.
pub open spec fn keeping<V>(
    caches: Map<Seq<char>, CacheModel<V>>,
    later: Seq<(Seq<char>, CacheModel<V>)>,
) -> Map<Seq<char>, CacheModel<V>>
    decreases later.len(),
{
    if later.len() == 0 {
        caches
    } else {
        keeping(caches, later.drop_last()).insert(later.last().0, later.last().1)
    }
}

/// A cache that was kept is found again unchanged, whatever caches of other
/// prompts are kept later.
pub proof fn kept_prefix_is_found_again<V>(
    caches: Map<Seq<char>, CacheModel<V>>,
    prefix: Seq<char>,
    cache: CacheModel<V>,
    later: Seq<(Seq<char>, CacheModel<V>)>,
)
    requires
        forall|i: int| 0 <= i < later.len() ==> (#[trigger] later[i]).0 != prefix,
    ensures
        keeping(caches.insert(prefix, cache), later).contains_key(prefix),
        keeping(caches.insert(prefix, cache), later)[prefix] == cache,
    decreases later.len(),
{
    if later.len() > 0 {
        let earlier = later.drop_last();
        assert forall|i: int| 0 <= i < earlier.len() implies (#[trigger] earlier[i]).0 != prefix by {
            assert(earlier[i] == later[i]);
        }
        assert(later[later.len() - 1].0 != prefix);
        kept_prefix_is_found_again(caches, prefix, cache, earlier);
    }
}

/// What a call for a cache may do to the caches that are kept: nothing, or
/// keep one for a prefix that had none.
pub open spec fn may_follow<V>(
    before: Map<Seq<char>, CacheModel<V>>,
    after: Map<Seq<char>, CacheModel<V>>,
) -> bool {
    after == before || exists|prefix: Seq<char>, cache: CacheModel<V>|
        !before.contains_key(prefix) && after == #[trigger] before.insert(prefix, cache)
}

/// Whether each of `history` comes of the one before it by a call for a cache.
pub open spec fn is_history<V>(history: Seq<Map<Seq<char>, CacheModel<V>>>) -> bool {
    &&& history.len() > 0
    &&& forall|i: int|
        0 < i < history.len() ==> may_follow(history[i - 1], #[trigger] history[i])
}

/// A call for a cache does no more than what the history of the caches allows
/// for; one that fails keeps nothing, so that the prefix is read anew.
pub proof fn call_keeps_what_is_there<
    V,
    E,
    R: FnOnce() -> Result<DecoderCache<V>, E>,
    C: Fn(&String, &V) -> Result<V, E>,
>(
    read: R,
    copy: C,
    before: Map<Seq<char>, CacheModel<V>>,
    prefix: Seq<char>,
    after: Map<Seq<char>, CacheModel<V>>,
    result: Result<DecoderCache<V>, E>,
)
    requires
        answers(read, copy, before, prefix, after, result),
    ensures
        may_follow(before, after),
        result is Ok ==> after.contains_key(prefix),
        result is Err ==> after == before,
        result is Err && !before.contains_key(prefix) ==> !after.contains_key(prefix),
{
}

/// A cache that was read now holds as many positions as were read, both the one
/// that is handed out and the one that is kept.
pub proof fn read_cache_holds_its_positions<
    V,
    E,
    R: FnOnce() -> Result<DecoderCache<V>, E>,
    C: Fn(&String, &V) -> Result<V, E>,
>(
    read: R,
    copy: C,
    before: Map<Seq<char>, CacheModel<V>>,
    prefix: Seq<char>,
    after: Map<Seq<char>, CacheModel<V>>,
    first: DecoderCache<V>,
    positions: nat,
)
    requires
        !before.contains_key(prefix),
        answers(read, copy, before, prefix, after, Ok(first)),
        forall|cache: DecoderCache<V>| #[trigger]
            read.ensures((), Ok(cache)) ==> cache@.total_len == positions,
    ensures
        first@.total_len == positions,
        after[prefix].total_len == positions,
{
}

proof fn history_keeps_cache<V>(
    history: Seq<Map<Seq<char>, CacheModel<V>>>,
    prefix: Seq<char>,
    at: int,
)
    requires
        is_history(history),
        history[0].contains_key(prefix),
        0 <= at < history.len(),
    ensures
        history[at].contains_key(prefix),
        history[at][prefix] == history[0][prefix],
    decreases at,
{
    if at > 0 {
        history_keeps_cache(history, prefix, at - 1);
        assert(may_follow(history[at - 1], history[at]));
    }
}

/// Whether copies hold what the tensors hold that they were made of.
pub open spec fn is_faithful<V, X, E, C: Fn(&String, &V) -> Result<V, E>>(
    copy: C,
    contents: spec_fn(V) -> X,
) -> bool {
    forall|name: Seq<char>, value: V, copied: V| #[trigger]
        cache::may_copy(copy, name, value, Ok::<V, E>(copied)) ==> contents(copied) == contents(
            value,
        )
}

/// A prefix is read once: when a cache was handed out for it, then whatever
/// calls came since, and whatever became of that cache, the next call keeps the
/// caches as they are, reads nothing, and hands out the same slots, the same
/// contents of their tensors and the same number of positions.
pub proof fn prefix_is_read_once<
    V,
    X,
    E,
    R: FnOnce() -> Result<DecoderCache<V>, E>,
    C: Fn(&String, &V) -> Result<V, E>,
>(
    read: R,
    copy: C,
    contents: spec_fn(V) -> X,
    prefix: Seq<char>,
    before: Map<Seq<char>, CacheModel<V>>,
    history: Seq<Map<Seq<char>, CacheModel<V>>>,
    after: Map<Seq<char>, CacheModel<V>>,
    first: DecoderCache<V>,
    second: DecoderCache<V>,
)
    requires
        is_faithful(copy, contents),
        is_history(history),
        answers(read, copy, before, prefix, history[0], Ok(first)),
        answers(read, copy, history.last(), prefix, after, Ok(second)),
    ensures
        history.last().contains_key(prefix),
        after == history.last(),
        second@.slots == first@.slots,
        second@.total_len == first@.total_len,
        second@.values.len() == first@.values.len(),
        forall|i: int|
            0 <= i < first@.values.len() ==> contents(#[trigger] second@.values[i]) == contents(
                first@.values[i],
            ),
{
    call_keeps_what_is_there(read, copy, before, prefix, history[0], Ok(first));
    history_keeps_cache(history, prefix, history.len() - 1);
    let kept = history[0][prefix];
    assert(cache::clones(copy, kept, Ok(first)));
    assert(cache::clones(copy, kept, Ok(second)));
    assert forall|i: int| 0 <= i < first@.values.len() implies contents(
        #[trigger] second@.values[i],
    ) == contents(first@.values[i]) by {
        let name = kept.slots[i].past;
        assert(cache::may_copy(copy, name, kept.values[i], Ok::<V, E>(first@.values[i])));
        assert(cache::may_copy(copy, name, kept.values[i], Ok::<V, E>(second@.values[i])));
    }
}

/// What a call for a cache does. Where one is kept for the prefix, that one is
/// copied and nothing changes. Otherwise the prefix is read: what was read is
/// copied, and kept under the prefix where the copy was made; no other prefix
/// is touched. Where it cannot be read, the failure is handed on and nothing is
/// kept.
pub proof fn prefix_is_read_only_where_it_is_missing<
    V,
    E,
    R: FnOnce() -> Result<DecoderCache<V>, E>,
    C: Fn(&String, &V) -> Result<V, E>,
>(
    read: R,
    copy: C,
    before: Map<Seq<char>, CacheModel<V>>,
    prefix: Seq<char>,
    after: Map<Seq<char>, CacheModel<V>>,
    result: Result<DecoderCache<V>, E>,
    other: Seq<char>,
)
    requires
        answers(read, copy, before, prefix, after, result),
    ensures
        before.contains_key(prefix) ==> after == before && cache::clones(
            copy,
            before[prefix],
            result,
        ),
        !before.contains_key(prefix) && result is Ok ==> exists|found: DecoderCache<V>|
            {
                &&& #[trigger] read.ensures((), Ok(found))
                &&& cache::clones(copy, found@, result)
                &&& after.contains_key(prefix)
                &&& after[prefix] == found@
            },
        !before.contains_key(prefix) && result is Err ==> after == before && (read.ensures(
            (),
            result,
        ) || exists|found: DecoderCache<V>| #[trigger]
            read.ensures((), Ok(found)) && cache::clones(copy, found@, result)),
        other != prefix ==> after.contains_key(other) == before.contains_key(other),
        other != prefix && before.contains_key(other) ==> after[other] == before[other],
{
    if !before.contains_key(prefix) {
        let outcome = choose|outcome: Result<DecoderCache<V>, E>|
            {
                &&& #[trigger] read.ensures((), outcome)
                &&& match outcome {
                    Ok(cache) => {
                        &&& cache::clones(copy, cache@, result)
                        &&& after == if result is Ok {
                            before.insert(prefix, cache@)
                        } else {
                            before
                        }
                    },
                    Err(error) => after == before && result == Err::<DecoderCache<V>, E>(error),
                }
            };
        if let Ok(found) = outcome {
            assert(read.ensures((), Ok(found)));
        }
    }
}

} // verus!
