//! Mathematical models of the quest nodes.
//!
//! Each executable node type has a model struct here, reached through its
//! `view` (`@`).  A node's status is not stored but derived from its counts,
//! so the status transition functions here are the whole truth about what
//! `register_event` and `reset` do.  All fields of the models are public, so
//! callers can reason about the engine purely at this level.
use crate::QuestStatus;
use vstd::prelude::*;
use vstd::std_specs::cmp::PartialEqSpec;

verus! {

/// Model of a [`crate::SubQuest`]: count occurrences of a target event.
#[verifier::ext_equal]
pub struct CounterModel<Event> {
    /// The event being counted.
    pub target_type: Event,
    /// How many occurrences complete the quest.
    pub target_count: nat,
    /// How many occurrences have been registered so far.
    pub count: nat,
    /// The display prompt, fixed at construction.
    pub prompt: Seq<char>,
}

/// A counter is well formed when its count has not overshot its target.
pub open spec fn counter_wf<E>(q: CounterModel<E>) -> bool {
    q.count <= q.target_count
}

/// A counter is complete exactly when its count has reached its target; in
/// particular a counter constructed with a zero target is complete from the
/// start.
pub open spec fn counter_status<E>(q: CounterModel<E>) -> QuestStatus {
    if q.count == q.target_count {
        QuestStatus::Complete
    } else {
        QuestStatus::Ongoing
    }
}

/// A freshly built counter: nothing registered yet.
pub open spec fn counter_init<E>(target_type: E, target_count: nat, prompt: Seq<char>) -> CounterModel<
    E,
> {
    CounterModel { target_type, target_count, count: 0, prompt }
}

/// One event registration, given whether the event matched the target:
/// while ongoing, a matching event raises the count by one; everything else
/// is a no-op.  Extra matching events after completion never bank.
pub open spec fn counter_step_matched<E>(q: CounterModel<E>, matched: bool) -> CounterModel<E> {
    if counter_status(q) == QuestStatus::Ongoing && matched {
        CounterModel { count: q.count + 1, ..q }
    } else {
        q
    }
}

/// One event registration with the event itself, for event types whose
/// equality obeys its specification.
pub open spec fn counter_step<E: PartialEq>(q: CounterModel<E>, e: E) -> CounterModel<E> {
    counter_step_matched(q, e.eq_spec(&q.target_type))
}

/// Resetting a counter zeroes its count and keeps its configuration.
pub open spec fn counter_reset<E>(q: CounterModel<E>) -> CounterModel<E> {
    CounterModel { count: 0, ..q }
}

/// Model of a [`crate::SubMemQuest`]: count uninterrupted runs of a target
/// event.
#[verifier::ext_equal]
pub struct RunModel<Event> {
    /// The event whose runs are counted.
    pub target_type: Event,
    /// How many consecutive occurrences make one full run.
    pub target_mem_count: nat,
    /// How many full runs complete the quest.
    pub target_count: nat,
    /// Progress within the current run; discarded on interruption.
    pub mem_count: nat,
    /// How many full runs have been completed so far.
    pub count: nat,
    /// The display prompt, fixed at construction.
    pub prompt: Seq<char>,
}

/// A run counter is complete exactly when its run count has reached its
/// target; a run length of zero makes every demand vacuous, so such a quest
/// is complete from the start.
pub open spec fn run_status<E>(q: RunModel<E>) -> QuestStatus {
    if q.count == q.target_count || q.target_mem_count == 0 {
        QuestStatus::Complete
    } else {
        QuestStatus::Ongoing
    }
}

/// A run counter is well formed when its run count has not overshot its
/// target and, while ongoing, the progress within the current run is still
/// short of a full run.
pub open spec fn run_wf<E>(q: RunModel<E>) -> bool {
    &&& q.count <= q.target_count
    &&& (run_status(q) == QuestStatus::Ongoing ==> q.mem_count < q.target_mem_count)
}

/// A freshly built run counter: nothing registered yet.
pub open spec fn run_init<E>(
    target_type: E,
    target_mem_count: nat,
    target_count: nat,
    prompt: Seq<char>,
) -> RunModel<E> {
    RunModel { target_type, target_mem_count, target_count, mem_count: 0, count: 0, prompt }
}

/// One event registration, given whether the event matched the target, only
/// while ongoing: a matching event advances the current run, any other event
/// discards the partial run; a run that reaches the full length counts once
/// and the progress starts over.
pub open spec fn run_step_matched<E>(q: RunModel<E>, matched: bool) -> RunModel<E> {
    if run_status(q) == QuestStatus::Ongoing {
        let progressed = if matched {
            q.mem_count + 1
        } else {
            0
        };
        if progressed == q.target_mem_count {
            RunModel { mem_count: 0, count: q.count + 1, ..q }
        } else {
            RunModel { mem_count: progressed, ..q }
        }
    } else {
        q
    }
}

/// One event registration with the event itself, for event types whose
/// equality obeys its specification.
pub open spec fn run_step<E: PartialEq>(q: RunModel<E>, e: E) -> RunModel<E> {
    run_step_matched(q, e.eq_spec(&q.target_type))
}

/// Resetting a run counter zeroes both counters and keeps its configuration.
pub open spec fn run_reset<E>(q: RunModel<E>) -> RunModel<E> {
    RunModel { mem_count: 0, count: 0, ..q }
}

/// Model of a [`crate::OrderedQuest`]: counters completed strictly in list
/// order, one at a time.
#[verifier::ext_equal]
pub struct SequenceModel<Event> {
    /// The child counters, in the order they must be completed.
    pub sub_quests: Seq<CounterModel<Event>>,
    /// The display prompt, fixed at construction.
    pub prompt: Seq<char>,
}

/// Whether every counter in the list is complete.
pub open spec fn all_counters_complete<E>(s: Seq<CounterModel<E>>) -> bool {
    forall|i: int|
        0 <= i < s.len() ==> counter_status(#[trigger] s[i]) == QuestStatus::Complete
}

/// The position of the first ongoing counter, if any: the only child that
/// receives events.
pub open spec fn first_ongoing<E>(s: Seq<CounterModel<E>>) -> Option<int>
    decreases s.len(),
{
    if s.len() == 0 {
        None
    } else if counter_status(s[0]) == QuestStatus::Ongoing {
        Some(0int)
    } else {
        match first_ongoing(s.drop_first()) {
            Some(i) => Some(i + 1),
            None => None,
        }
    }
}

/// `first_ongoing` finds exactly the first position that is still ongoing:
/// if the first `j` counters are complete, and either `j` is the length or
/// the counter at `j` is ongoing, the result is pinned.
pub proof fn lemma_first_ongoing_at<E>(s: Seq<CounterModel<E>>, j: int)
    requires
        0 <= j <= s.len(),
        forall|k: int| 0 <= k < j ==> counter_status(#[trigger] s[k]) == QuestStatus::Complete,
        j < s.len() ==> counter_status(s[j]) == QuestStatus::Ongoing,
    ensures
        first_ongoing(s) == if j == s.len() {
            None::<int>
        } else {
            Some(j)
        },
    decreases s.len(),
{
    if s.len() == 0 {
    } else if counter_status(s[0]) == QuestStatus::Ongoing {
        assert(j == 0);
    } else {
        assert(counter_status(s[0]) == QuestStatus::Complete);
        assert(j >= 1);
        let t = s.drop_first();
        assert forall|k: int| 0 <= k < j - 1 implies counter_status(#[trigger] t[k])
            == QuestStatus::Complete by {
            assert(t[k] == s[k + 1]);
        }
        assert(j - 1 < t.len() ==> counter_status(t[j - 1]) == QuestStatus::Ongoing);
        lemma_first_ongoing_at(t, j - 1);
    }
}

/// A sequence is complete exactly when every child counter is complete; in
/// particular a sequence with no children is complete from the start.
pub open spec fn sequence_status<E>(q: SequenceModel<E>) -> QuestStatus {
    if all_counters_complete(q.sub_quests) {
        QuestStatus::Complete
    } else {
        QuestStatus::Ongoing
    }
}

/// A sequence is well formed when all of its children are.
pub open spec fn sequence_wf<E>(q: SequenceModel<E>) -> bool {
    forall|i: int| 0 <= i < q.sub_quests.len() ==> counter_wf(#[trigger] q.sub_quests[i])
}

/// A freshly built sequence over the given children, with its fixed prompt.
pub open spec fn sequence_init<E>(sub_quests: Seq<CounterModel<E>>) -> SequenceModel<E> {
    SequenceModel { sub_quests, prompt: "You must, in order, complete each of these quests:"@ }
}

/// One event registration, given whether the event matched the live child's
/// target: the event is forwarded to the first ongoing child only; siblings
/// before and after are untouched.  With no ongoing child the call is a
/// no-op.
pub open spec fn sequence_step_matched<E>(q: SequenceModel<E>, matched: bool) -> SequenceModel<E> {
    match first_ongoing(q.sub_quests) {
        None => q,
        Some(i) => SequenceModel {
            sub_quests: q.sub_quests.update(i, counter_step_matched(q.sub_quests[i], matched)),
            ..q
        },
    }
}

/// One event registration with the event itself, for event types whose
/// equality obeys its specification.
pub open spec fn sequence_step<E: PartialEq>(q: SequenceModel<E>, e: E) -> SequenceModel<E> {
    match first_ongoing(q.sub_quests) {
        None => q,
        Some(i) => SequenceModel {
            sub_quests: q.sub_quests.update(i, counter_step(q.sub_quests[i], e)),
            ..q
        },
    }
}

/// Resetting a sequence resets every child and keeps the configuration.
pub open spec fn sequence_reset<E>(q: SequenceModel<E>) -> SequenceModel<E> {
    SequenceModel {
        sub_quests: q.sub_quests.map_values(|c: CounterModel<E>| counter_reset(c)),
        ..q
    }
}

/// Model of a [`crate::QuestSystem`]: an aggregate over sequences, counters
/// and run counters that completes once enough children are complete.
#[verifier::ext_equal]
pub struct SystemModel<Event> {
    /// The sequence children.
    pub v_ordered: Seq<SequenceModel<Event>>,
    /// The counter children.
    pub v_sub_quest: Seq<CounterModel<Event>>,
    /// The run counter children.
    pub v_mem_quest: Seq<RunModel<Event>>,
    /// How many children must be complete for the aggregate to be complete.
    pub target_count: nat,
    /// The display prompt, fixed at construction.
    pub prompt: Seq<char>,
}

/// How many of the statuses are `Complete`.
pub open spec fn num_complete(s: Seq<QuestStatus>) -> nat
    decreases s.len(),
{
    if s.len() == 0 {
        0
    } else {
        num_complete(s.drop_last()) + if s.last() == QuestStatus::Complete {
            1nat
        } else {
            0nat
        }
    }
}

/// The statuses of a list of counters, in order.
pub open spec fn counter_statuses<E>(s: Seq<CounterModel<E>>) -> Seq<QuestStatus> {
    s.map_values(|c: CounterModel<E>| counter_status(c))
}

/// The statuses of a list of run counters, in order.
pub open spec fn run_statuses<E>(s: Seq<RunModel<E>>) -> Seq<QuestStatus> {
    s.map_values(|c: RunModel<E>| run_status(c))
}

/// The statuses of a list of sequences, in order.
pub open spec fn sequence_statuses<E>(s: Seq<SequenceModel<E>>) -> Seq<QuestStatus> {
    s.map_values(|c: SequenceModel<E>| sequence_status(c))
}

/// How many children of the aggregate, across all three collections, are
/// complete.
pub open spec fn system_completed_count<E>(q: SystemModel<E>) -> nat {
    num_complete(sequence_statuses(q.v_ordered)) + num_complete(counter_statuses(q.v_sub_quest))
        + num_complete(run_statuses(q.v_mem_quest))
}

/// An aggregate is complete exactly when at least `target_count` of its
/// children are complete — a true threshold test, so an aggregate whose
/// target is zero is complete from the start, and one that is complete stays
/// complete however its children move on.
pub open spec fn system_status<E>(q: SystemModel<E>) -> QuestStatus {
    if system_completed_count(q) >= q.target_count {
        QuestStatus::Complete
    } else {
        QuestStatus::Ongoing
    }
}

/// An aggregate is well formed when all of its children are.
pub open spec fn system_wf<E>(q: SystemModel<E>) -> bool {
    &&& forall|i: int| 0 <= i < q.v_ordered.len() ==> sequence_wf(#[trigger] q.v_ordered[i])
    &&& forall|i: int| 0 <= i < q.v_sub_quest.len() ==> counter_wf(#[trigger] q.v_sub_quest[i])
    &&& forall|i: int| 0 <= i < q.v_mem_quest.len() ==> run_wf(#[trigger] q.v_mem_quest[i])
}

/// A freshly built aggregate over the given children, with its prompt naming
/// the threshold.
pub open spec fn system_init<E>(
    v_ordered: Seq<SequenceModel<E>>,
    v_sub_quest: Seq<CounterModel<E>>,
    v_mem_quest: Seq<RunModel<E>>,
    target_count: nat,
) -> SystemModel<E> {
    SystemModel {
        v_ordered,
        v_sub_quest,
        v_mem_quest,
        target_count,
        prompt: "You must complete at least "@ + crate::text::dec_digits(target_count)
            + " of these quests"@,
    }
}

/// One event registration: the event is forwarded unconditionally to every
/// child in every collection; each child applies its own rule.
pub open spec fn system_step<E: PartialEq>(q: SystemModel<E>, e: E) -> SystemModel<E> {
    SystemModel {
        v_ordered: q.v_ordered.map_values(|c: SequenceModel<E>| sequence_step(c, e)),
        v_sub_quest: q.v_sub_quest.map_values(|c: CounterModel<E>| counter_step(c, e)),
        v_mem_quest: q.v_mem_quest.map_values(|c: RunModel<E>| run_step(c, e)),
        ..q
    }
}

/// Resetting an aggregate resets every child in every collection and keeps
/// the configuration.
pub open spec fn system_reset<E>(q: SystemModel<E>) -> SystemModel<E> {
    SystemModel {
        v_ordered: q.v_ordered.map_values(|c: SequenceModel<E>| sequence_reset(c)),
        v_sub_quest: q.v_sub_quest.map_values(|c: CounterModel<E>| counter_reset(c)),
        v_mem_quest: q.v_mem_quest.map_values(|c: RunModel<E>| run_reset(c)),
        ..q
    }
}

/// Counting complete statuses, one position at a time.
pub proof fn lemma_num_complete_take(s: Seq<QuestStatus>, i: int)
    requires
        0 <= i < s.len(),
    ensures
        num_complete(s.take(i + 1)) == num_complete(s.take(i)) + if s[i] == QuestStatus::Complete {
            1nat
        } else {
            0nat
        },
{
    assert(s.take(i + 1).drop_last() =~= s.take(i));
    assert(s.take(i + 1).last() == s[i]);
}

/// If no status falls back from `Complete`, the number of complete statuses
/// cannot shrink.
pub proof fn lemma_num_complete_mono(a: Seq<QuestStatus>, b: Seq<QuestStatus>)
    requires
        a.len() == b.len(),
        forall|i: int|
            0 <= i < a.len() && #[trigger] a[i] == QuestStatus::Complete ==> #[trigger] b[i]
                == QuestStatus::Complete,
    ensures
        num_complete(b) >= num_complete(a),
    decreases a.len(),
{
    if a.len() > 0 {
        lemma_num_complete_mono(a.drop_last(), b.drop_last());
        assert(a.last() == a[a.len() - 1]);
        assert(b.last() == b[a.len() - 1]);
    }
}

/// What the position returned by `first_ongoing` means: when there is none,
/// every counter is complete; when there is one, it is ongoing and everything
/// before it is complete.
pub proof fn lemma_first_ongoing_props<E>(s: Seq<CounterModel<E>>)
    ensures
        match first_ongoing(s) {
            None => all_counters_complete(s),
            Some(i) => 0 <= i < s.len() && counter_status(s[i]) == QuestStatus::Ongoing && (forall|
                j: int,
            |
                0 <= j < i ==> counter_status(#[trigger] s[j]) == QuestStatus::Complete),
        },
    decreases s.len(),
{
    if s.len() == 0 {
    } else if counter_status(s[0]) == QuestStatus::Ongoing {
    } else {
        lemma_first_ongoing_props(s.drop_first());
        let t = s.drop_first();
        match first_ongoing(t) {
            Some(i) => {
                assert(s[i + 1] == t[i]);
                assert forall|j: int| 0 <= j < i + 1 implies counter_status(#[trigger] s[j])
                    == QuestStatus::Complete by {
                    if j > 0 {
                        assert(s[j] == t[j - 1]);
                    }
                }
            },
            None => {
                assert forall|j: int| 0 <= j < s.len() implies counter_status(#[trigger] s[j])
                    == QuestStatus::Complete by {
                    if j > 0 {
                        assert(s[j] == t[j - 1]);
                    }
                }
            },
        }
    }
}

} // verus!
