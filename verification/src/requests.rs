//! What a list of effects asks of the host: how often, and in which order.

use crate::effect::Effect;
use vstd::prelude::*;

verus! {

/// How often `effects` asks for `effect`.
pub open spec fn times(effects: Seq<Effect>, effect: Effect) -> nat
    decreases effects.len(),
{
    if effects.len() == 0 {
        0
    } else {
        times(effects.drop_last(), effect) + (if effects.last() == effect {
            1nat
        } else {
            0
        })
    }
}

/// Whether every request for `first` comes before every request for `second`.
pub open spec fn in_order(effects: Seq<Effect>, first: Effect, second: Effect) -> bool {
    exists|k: int|
        #![trigger effects.take(k)]
        0 <= k <= effects.len() && !effects.take(k).contains(second) && !effects.skip(k).contains(
            first,
        )
}

/// Nothing asks for nothing.
pub broadcast proof fn lemma_times_empty(effect: Effect)
    ensures
        #[trigger] times(Seq::<Effect>::empty(), effect) == 0,
{
}

/// One more request is one more request.
pub broadcast proof fn lemma_times_push(effects: Seq<Effect>, last: Effect, effect: Effect)
    ensures
        #[trigger] times(effects.push(last), effect) == times(effects, effect) + (if last == effect {
            1nat
        } else {
            0
        }),
{
    assert(effects.push(last).drop_last() =~= effects);
}

/// Two lists ask for as much as both of them together.
pub broadcast proof fn lemma_times_add(a: Seq<Effect>, b: Seq<Effect>, effect: Effect)
    ensures
        #[trigger] times(a + b, effect) == times(a, effect) + times(b, effect),
    decreases b.len(),
{
    if b.len() == 0 {
        assert(a + b =~= a);
    } else {
        lemma_times_add(a, b.drop_last(), effect);
        assert((a + b).drop_last() =~= a + b.drop_last());
    }
}

/// What is asked for is asked for at least once.
pub broadcast proof fn lemma_times_contains(effects: Seq<Effect>, effect: Effect)
    ensures
        (#[trigger] times(effects, effect) > 0) == effects.contains(effect),
    decreases effects.len(),
{
    if effects.len() > 0 {
        let rest = effects.drop_last();
        lemma_times_contains(rest, effect);
        assert(effects =~= rest.push(effects.last()));
        vstd::seq_lib::lemma_seq_contains_after_push(rest, effects.last(), effect);
    }
}

pub broadcast group group_requests {
    lemma_times_empty,
    lemma_times_push,
    lemma_times_add,
    vstd::seq_lib::lemma_seq_concat_contains_all_elements,
    vstd::seq_lib::lemma_seq_contains_after_push,
    vstd::seq_lib::lemma_seq_empty_contains_nothing,
}

/// Two lists in a row are in order if the first asks for nothing late and the
/// second for nothing early.
pub proof fn lemma_in_order(front: Seq<Effect>, back: Seq<Effect>, first: Effect, second: Effect)
    requires
        !front.contains(second),
        !back.contains(first),
    ensures
        in_order(front + back, first, second),
{
    let k = front.len() as int;
    assert((front + back).take(k) =~= front);
    assert((front + back).skip(k) =~= back);
}

} // verus!
