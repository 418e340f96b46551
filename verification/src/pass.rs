//! What a whole checkpoint pass comes to: a walk over the open documents, and
//! then the end of it.

use crate::checkpoint::{DocumentFacts, DueCheckpoint, DueVerdict};
use crate::effect::{AttemptId, AttemptTiming, Instant, TokenId};
use crate::protection::{
    activated_states, all_warned, dispatched_state, due_verdict, entry, judged_state, launched,
    same_attempt, visited_state, States,
};
use crate::scope::DocumentId;
use vstd::prelude::*;

verus! {

/// What the store says when a record is made active.
pub struct Activation {
    pub token: TokenId,
    /// It cannot promise protection yet.
    pub protection_deferred: bool,
}

/// What a text needs to go on its way.
pub struct Departure {
    pub token: TokenId,
    pub timing: AttemptTiming,
    pub attempt: AttemptId,
}

/// One open document as a pass meets it, with the answers of its surroundings.
pub struct Look {
    pub facts: DocumentFacts,
    /// The store's answer, where visiting the document asked for a token.
    pub activation: Option<Activation>,
    /// Its schedule says that a checkpoint is due.
    pub due: bool,
    /// The largest text that the store admits.
    pub ceiling: u64,
    /// What its schedule and the store give it for the way, if it is to go.
    pub departure: Option<Departure>,
}

/// `states` once `look`'s document is visited and its record made active.
pub open spec fn visited_in(states: States, look: Look, now: Instant) -> States {
    let facts = look.facts;
    let visited = states.insert(
        facts.id,
        visited_state(entry(states, facts.id), facts, now),
    );
    match look.activation {
        Some(activation) => activated_states(
            visited,
            facts.id,
            facts.key,
            activation.token,
            activation.protection_deferred,
        ),
        None => visited,
    }
}

/// What a pass decides about the document of `look`.
pub open spec fn verdict_in(
    states: States,
    look: Look,
    now: Instant,
    worker_active: bool,
) -> DueVerdict {
    due_verdict(
        visited_in(states, look, now)[look.facts.id],
        look.facts,
        look.due,
        worker_active,
        look.ceiling,
    )
}

/// Whether a pass sends the document of `look` on its way.
pub open spec fn sends(states: States, look: Look, now: Instant, worker_active: bool) -> bool {
    look.facts.dirty && look.departure is Some && verdict_in(states, look, now, worker_active)
        is Dispatch
}

/// The checkpoint that `look`'s document goes to.
pub open spec fn sent(look: Look) -> DueCheckpoint {
    let departure = look.departure->0;
    DueCheckpoint {
        document: look.facts.id,
        attempt: launched(look.facts, departure.token, departure.timing, departure.attempt),
    }
}

/// `states` once a pass has dealt with the document of `look`.
pub open spec fn looked_at(
    states: States,
    look: Look,
    now: Instant,
    worker_active: bool,
) -> States {
    let facts = look.facts;
    if !facts.dirty {
        states.remove(facts.id)
    } else {
        let visited = visited_in(states, look, now);
        let judged = judged_state(
            visited[facts.id],
            facts,
            verdict_in(states, look, now, worker_active),
        );
        visited.insert(
            facts.id,
            if sends(states, look, now, worker_active) {
                dispatched_state(judged, sent(look).attempt)
            } else {
                judged
            },
        )
    }
}

/// `states` once a pass has dealt with every one of `looks`, in order.
pub open spec fn walked(
    states: States,
    looks: Seq<Look>,
    now: Instant,
    worker_active: bool,
) -> States
    decreases looks.len(),
{
    if looks.len() == 0 {
        states
    } else {
        looked_at(
            walked(states, looks.drop_last(), now, worker_active),
            looks.last(),
            now,
            worker_active,
        )
    }
}

/// The checkpoints that a pass over `looks` takes.
pub open spec fn taken(
    states: States,
    looks: Seq<Look>,
    now: Instant,
    worker_active: bool,
) -> Seq<DueCheckpoint>
    decreases looks.len(),
{
    if looks.len() == 0 {
        Seq::empty()
    } else {
        let rest = looks.drop_last();
        let earlier = taken(states, rest, now, worker_active);
        if sends(walked(states, rest, now, worker_active), looks.last(), now, worker_active) {
            earlier.push(sent(looks.last()))
        } else {
            earlier
        }
    }
}

/// Whether one of the checkpoints `due` is of the document `id`.
pub open spec fn includes(due: Seq<DueCheckpoint>, id: DocumentId) -> bool {
    exists|i: int| 0 <= i < due.len() && (#[trigger] due[i]).document == id
}

proof fn lemma_includes_push(due: Seq<DueCheckpoint>, checkpoint: DueCheckpoint, id: DocumentId)
    ensures
        includes(due.push(checkpoint), id) <==> includes(due, id) || checkpoint.document == id,
{
    let longer = due.push(checkpoint);
    if includes(due, id) {
        let i = choose|i: int| 0 <= i < due.len() && (#[trigger] due[i]).document == id;
        assert(longer[i].document == id);
    }
    if checkpoint.document == id {
        assert(longer[due.len() as int].document == id);
    }
    if includes(longer, id) {
        let i = choose|i: int| 0 <= i < longer.len() && (#[trigger] longer[i]).document == id;
        if i < due.len() {
            assert(due[i].document == id);
        }
    }
}

/// The documents that a pass has met.
pub open spec fn met(looks: Seq<Look>) -> Set<DocumentId> {
    Set::new(
        |id: DocumentId| exists|i: int| 0 <= i < looks.len() && (#[trigger] looks[i]).facts.id == id,
    )
}

/// `states` at the end of a pass: documents that are no longer open are
/// forgotten.
pub open spec fn passed(
    states: States,
    looks: Seq<Look>,
    now: Instant,
    worker_active: bool,
) -> States {
    walked(states, looks, now, worker_active).restrict(met(looks))
}

/// Whether no document is met twice.
pub open spec fn distinct(looks: Seq<Look>) -> bool {
    forall|i: int, j: int|
        #![trigger looks[i], looks[j]]
        0 <= i < j < looks.len() ==> looks[i].facts.id != looks[j].facts.id
}

/// A pass leaves a document alone that it does not meet.
proof fn lemma_unmet(
    states: States,
    looks: Seq<Look>,
    now: Instant,
    worker_active: bool,
    id: DocumentId,
)
    requires
        forall|i: int| 0 <= i < looks.len() ==> (#[trigger] looks[i]).facts.id != id,
    ensures
        entry(walked(states, looks, now, worker_active), id) == entry(states, id),
        !includes(taken(states, looks, now, worker_active), id),
    decreases looks.len(),
{
    if looks.len() > 0 {
        let rest = looks.drop_last();
        assert forall|i: int| 0 <= i < rest.len() implies (#[trigger] rest[i]).facts.id != id by {
            assert(rest[i] == looks[i]);
        }
        lemma_unmet(states, rest, now, worker_active, id);
        lemma_includes_push(taken(states, rest, now, worker_active), sent(looks.last()), id);
        assert(looks[looks.len() - 1].facts.id != id);
    }
}

/// What a pass makes of a document depends on that document alone: it is dealt
/// with as if it were the only one.
proof fn lemma_met(
    states: States,
    looks: Seq<Look>,
    now: Instant,
    worker_active: bool,
    at: int,
)
    requires
        distinct(looks),
        0 <= at < looks.len(),
    ensures
        entry(walked(states, looks, now, worker_active), looks[at].facts.id) == entry(
            looked_at(states, looks[at], now, worker_active),
            looks[at].facts.id,
        ),
        includes(taken(states, looks, now, worker_active), looks[at].facts.id) <==> sends(
            states,
            looks[at],
            now,
            worker_active,
        ),
    decreases looks.len(),
{
    let rest = looks.drop_last();
    let id = looks[at].facts.id;
    let earlier = walked(states, rest, now, worker_active);
    assert(distinct(rest)) by {
        assert forall|i: int, j: int|
            #![trigger rest[i], rest[j]]
            0 <= i < j < rest.len() implies rest[i].facts.id != rest[j].facts.id by {
            assert(rest[i] == looks[i] && rest[j] == looks[j]);
        }
    }
    lemma_includes_push(taken(states, rest, now, worker_active), sent(looks.last()), id);
    if at < rest.len() {
        assert(rest[at] == looks[at]);
        lemma_met(states, rest, now, worker_active, at);
        assert(looks[looks.len() - 1].facts.id != id);
    } else {
        assert forall|i: int| 0 <= i < rest.len() implies (#[trigger] rest[i]).facts.id != id by {
            assert(rest[i] == looks[i]);
        }
        lemma_unmet(states, rest, now, worker_active, id);
        assert(entry(earlier, id) == entry(states, id));
    }
}

/// A text that a pass decides to send may go: the worker is idle, nothing is
/// under way for the document, and its revision is not known not to fit.
pub proof fn law_a_text_that_is_to_go_may_go(
    states: States,
    look: Look,
    now: Instant,
    worker_active: bool,
)
    requires
        verdict_in(states, look, now, worker_active) is Dispatch,
    ensures
        !worker_active,
        visited_in(states, look, now)[look.facts.id].in_flight is None,
        visited_in(states, look, now)[look.facts.id].suppressed_oversized_revision != Some(
            visited_in(states, look, now)[look.facts.id].revision,
        ),
{
}

/// After a pass exactly the dirty open documents are protected, each at the
/// revision and under the record that it has now.
pub proof fn law_a_pass_protects_exactly_the_dirty_documents(
    states: States,
    looks: Seq<Look>,
    now: Instant,
    worker_active: bool,
)
    requires
        distinct(looks),
    ensures
        forall|id: DocumentId| #[trigger]
            passed(states, looks, now, worker_active).contains_key(id) <==> exists|i: int|
                0 <= i < looks.len() && (#[trigger] looks[i]).facts.id == id
                    && looks[i].facts.dirty,
        forall|i: int|
            0 <= i < looks.len() && (#[trigger] looks[i]).facts.dirty ==> {
                let state = passed(states, looks, now, worker_active)[looks[i].facts.id];
                &&& state.key == looks[i].facts.key
                &&& state.revision == looks[i].facts.revision
            },
{
    let after = passed(states, looks, now, worker_active);
    assert forall|i: int| 0 <= i < looks.len() implies after.contains_key(
        (#[trigger] looks[i]).facts.id,
    ) == looks[i].facts.dirty && (looks[i].facts.dirty ==> {
        &&& after[looks[i].facts.id].key == looks[i].facts.key
        &&& after[looks[i].facts.id].revision == looks[i].facts.revision
    }) by {
        lemma_met(states, looks, now, worker_active, i);
        assert(met(looks).contains(looks[i].facts.id));
    }
    assert forall|id: DocumentId| #[trigger] after.contains_key(id) implies exists|i: int|
        0 <= i < looks.len() && (#[trigger] looks[i]).facts.id == id && looks[i].facts.dirty by {
        assert(met(looks).contains(id));
        let i = choose|i: int| 0 <= i < looks.len() && (#[trigger] looks[i]).facts.id == id;
        assert(looks[i].facts.dirty);
    }
}

/// While the worker is occupied, a pass takes no checkpoint: whatever is in
/// flight after it was in flight before.
pub proof fn law_an_occupied_worker_gets_nothing(
    states: States,
    looks: Seq<Look>,
    now: Instant,
)
    requires
        distinct(looks),
    ensures
        taken(states, looks, now, true).len() == 0,
        forall|id: DocumentId| #[trigger]
            passed(states, looks, now, true).contains_key(id) && passed(
                states,
                looks,
                now,
                true,
            )[id].in_flight is Some ==> states.contains_key(id) && (
            states[id].in_flight matches Some(attempt) && same_attempt(
                attempt,
                passed(states, looks, now, true)[id].in_flight->0,
            )),
{
    lemma_nothing_taken(states, looks, now);
    let after = passed(states, looks, now, true);
    assert forall|id: DocumentId| #[trigger] after.contains_key(id) && after[id].in_flight
        is Some implies states.contains_key(id) && (states[id].in_flight matches Some(attempt)
        && same_attempt(attempt, after[id].in_flight->0)) by {
        assert(met(looks).contains(id));
        let i = choose|i: int| 0 <= i < looks.len() && (#[trigger] looks[i]).facts.id == id;
        lemma_met(states, looks, now, true, i);
    }
}

proof fn lemma_nothing_taken(states: States, looks: Seq<Look>, now: Instant)
    ensures
        taken(states, looks, now, true).len() == 0,
    decreases looks.len(),
{
    if looks.len() > 0 {
        lemma_nothing_taken(states, looks.drop_last(), now);
    }
}

/// A pass keeps it that a text which does not fit is known to be unprotected.
pub proof fn law_a_pass_keeps_the_warnings(
    states: States,
    looks: Seq<Look>,
    now: Instant,
    worker_active: bool,
)
    requires
        all_warned(states),
    ensures
        all_warned(passed(states, looks, now, worker_active)),
{
    lemma_walk_keeps_the_warnings(states, looks, now, worker_active);
}

proof fn lemma_walk_keeps_the_warnings(
    states: States,
    looks: Seq<Look>,
    now: Instant,
    worker_active: bool,
)
    requires
        all_warned(states),
    ensures
        all_warned(walked(states, looks, now, worker_active)),
    decreases looks.len(),
{
    if looks.len() > 0 {
        lemma_walk_keeps_the_warnings(states, looks.drop_last(), now, worker_active);
    }
}

/// Where the worker is idle, a pass takes the text of a document that kept its
/// record and is not known not to fit exactly if it is dirty and due, fits, and
/// has nothing under way. What it takes is the document's text as it is now.
pub proof fn law_a_pass_takes_every_text_that_can_go(
    states: States,
    looks: Seq<Look>,
    now: Instant,
    at: int,
)
    requires
        distinct(looks),
        0 <= at < looks.len(),
        states.contains_key(looks[at].facts.id) ==> states[looks[at].facts.id].key
            == looks[at].facts.key && states[looks[at].facts.id].suppressed_oversized_revision
            is None,
    ensures
        includes(taken(states, looks, now, false), looks[at].facts.id) <==> {
            &&& looks[at].facts.dirty
            &&& looks[at].due
            &&& looks[at].departure is Some
            &&& looks[at].facts.text_bytes <= looks[at].ceiling
            &&& states.contains_key(looks[at].facts.id) ==> states[looks[at].facts.id].in_flight
                is None
        },
        includes(taken(states, looks, now, false), looks[at].facts.id) ==> {
            let state = passed(states, looks, now, false)[looks[at].facts.id];
            &&& state.in_flight is Some
            &&& state.in_flight->0.id == looks[at].departure->0.attempt
            &&& state.in_flight->0.token == looks[at].departure->0.token
            &&& state.in_flight->0.timing == looks[at].departure->0.timing
            &&& state.in_flight->0.revision == looks[at].facts.revision
        },
{
    lemma_met(states, looks, now, false, at);
    assert(met(looks).contains(looks[at].facts.id));
    law_a_pass_protects_exactly_the_dirty_documents(states, looks, now, false);
}

/// A due text that is larger than the store admits is not sent. The document is
/// known to be unprotected, and its revision is not tried again.
pub proof fn law_a_text_that_does_not_fit_is_not_sent(
    states: States,
    looks: Seq<Look>,
    now: Instant,
    at: int,
)
    requires
        distinct(looks),
        0 <= at < looks.len(),
        looks[at].facts.dirty,
        looks[at].due,
        looks[at].facts.text_bytes > looks[at].ceiling,
        all_warned(states),
        states.contains_key(looks[at].facts.id) ==> states[looks[at].facts.id].in_flight is None,
    ensures
        ({
            let state = passed(states, looks, now, false)[looks[at].facts.id];
            &&& state.suppressed_oversized_revision == Some(looks[at].facts.revision)
            &&& state.revision == looks[at].facts.revision
            &&& state.protection_warning
            &&& state.in_flight is None
        }),
        !includes(taken(states, looks, now, false), looks[at].facts.id),
{
    lemma_met(states, looks, now, false, at);
    assert(met(looks).contains(looks[at].facts.id));
    law_a_pass_protects_exactly_the_dirty_documents(states, looks, now, false);
}

/// A revision that does not fit stays where it is for as long as it is the
/// document's text: no pass sends it, whatever its schedule and the store say,
/// and the document stays known to be unprotected.
pub proof fn law_a_revision_that_does_not_fit_waits_for_an_edit(
    states: States,
    looks: Seq<Look>,
    now: Instant,
    worker_active: bool,
    at: int,
)
    requires
        distinct(looks),
        0 <= at < looks.len(),
        looks[at].facts.dirty,
        all_warned(states),
        states.contains_key(looks[at].facts.id),
        states[looks[at].facts.id].key == looks[at].facts.key,
        states[looks[at].facts.id].revision == looks[at].facts.revision,
        states[looks[at].facts.id].suppressed_oversized_revision == Some(
            looks[at].facts.revision,
        ),
    ensures
        ({
            let state = passed(states, looks, now, worker_active)[looks[at].facts.id];
            &&& state.suppressed_oversized_revision == Some(looks[at].facts.revision)
            &&& state.revision == looks[at].facts.revision
            &&& state.protection_warning
            &&& state.in_flight is None
        }),
        !includes(taken(states, looks, now, worker_active), looks[at].facts.id),
{
    lemma_met(states, looks, now, worker_active, at);
    assert(met(looks).contains(looks[at].facts.id));
    law_a_pass_protects_exactly_the_dirty_documents(states, looks, now, worker_active);
}

} // verus!
