//! The engine's laws, stated and proved over the models.
//!
//! Every public function of the engine pins its result down to a model
//! transition (`counter_step_matched`, `sequence_reset`, ...).  The proof
//! functions here state what those transitions guarantee: completion is
//! monotonic, counts never overshoot, runs are interrupted and completed
//! exactly, gating and thresholds behave as promised, rendering has the
//! documented shape, and resetting twice is resetting once.
use crate::model::{
    all_counters_complete, counter_reset, counter_status, counter_statuses, counter_step_matched,
    counter_wf, first_ongoing, lemma_first_ongoing_at, lemma_first_ongoing_props,
    lemma_num_complete_mono, run_reset, run_status, run_statuses, run_step_matched, run_wf,
    sequence_reset, sequence_status, sequence_statuses, sequence_step_matched,
    system_completed_count, system_reset, system_status, system_step, CounterModel, RunModel,
    SequenceModel, SystemModel,
};
use crate::text::{checkbox, counter_render, dec_digits, digit_char};
use crate::QuestStatus;
use vstd::prelude::*;

verus! {

// ------------------------------------------------------------------
// Monotonicity: once complete, a node never returns to ongoing without
// an explicit reset.
// ------------------------------------------------------------------

/// A complete counter ignores every further event.
pub proof fn lemma_counter_monotonic<E>(q: CounterModel<E>, matched: bool)
    requires
        counter_status(q) == QuestStatus::Complete,
    ensures
        counter_step_matched(q, matched) == q,
        counter_status(counter_step_matched(q, matched)) == QuestStatus::Complete,
{
}

/// A complete run counter ignores every further event.
pub proof fn lemma_run_monotonic<E>(q: RunModel<E>, matched: bool)
    requires
        run_status(q) == QuestStatus::Complete,
    ensures
        run_step_matched(q, matched) == q,
        run_status(run_step_matched(q, matched)) == QuestStatus::Complete,
{
}

/// A complete sequence ignores every further event.
pub proof fn lemma_sequence_monotonic<E>(q: SequenceModel<E>, matched: bool)
    requires
        sequence_status(q) == QuestStatus::Complete,
    ensures
        sequence_step_matched(q, matched) == q,
        sequence_status(sequence_step_matched(q, matched)) == QuestStatus::Complete,
{
    lemma_first_ongoing_at(q.sub_quests, q.sub_quests.len() as int);
}

/// A complete aggregate stays complete, though its children may still move
/// on.
pub proof fn lemma_system_monotonic<E: PartialEq>(q: SystemModel<E>, e: E)
    requires
        system_status(q) == QuestStatus::Complete,
    ensures
        system_status(system_step(q, e)) == QuestStatus::Complete,
{
    let p = system_step(q, e);
    assert forall|k: int|
        0 <= k < q.v_ordered.len() && #[trigger] sequence_statuses(q.v_ordered)[k]
            == QuestStatus::Complete implies #[trigger] sequence_statuses(p.v_ordered)[k]
        == QuestStatus::Complete by {
        lemma_first_ongoing_at(q.v_ordered[k].sub_quests, q.v_ordered[k].sub_quests.len() as int);
    }
    lemma_num_complete_mono(sequence_statuses(q.v_ordered), sequence_statuses(p.v_ordered));
    assert forall|k: int|
        0 <= k < q.v_sub_quest.len() && #[trigger] counter_statuses(q.v_sub_quest)[k]
            == QuestStatus::Complete implies #[trigger] counter_statuses(p.v_sub_quest)[k]
        == QuestStatus::Complete by {}
    lemma_num_complete_mono(counter_statuses(q.v_sub_quest), counter_statuses(p.v_sub_quest));
    assert forall|k: int|
        0 <= k < q.v_mem_quest.len() && #[trigger] run_statuses(q.v_mem_quest)[k]
            == QuestStatus::Complete implies #[trigger] run_statuses(p.v_mem_quest)[k]
        == QuestStatus::Complete by {}
    lemma_num_complete_mono(run_statuses(q.v_mem_quest), run_statuses(p.v_mem_quest));
}

// ------------------------------------------------------------------
// No overshoot: a counter's count never exceeds its target.
// ------------------------------------------------------------------

/// Registering events keeps a counter well formed: its count never exceeds
/// its target, so the rendered remaining count never falls below zero.
pub proof fn lemma_counter_no_overshoot<E>(q: CounterModel<E>, matched: bool)
    requires
        counter_wf(q),
    ensures
        counter_wf(counter_step_matched(q, matched)),
        counter_step_matched(q, matched).count <= q.target_count,
{
}

/// Registering events keeps a run counter well formed: neither its run count
/// nor its in-run progress ever overshoots.
pub proof fn lemma_run_no_overshoot<E>(q: RunModel<E>, matched: bool)
    requires
        run_wf(q),
    ensures
        run_wf(run_step_matched(q, matched)),
        run_step_matched(q, matched).count <= q.target_count,
{
}

// ------------------------------------------------------------------
// Run interruption and exact run completion.
// ------------------------------------------------------------------

/// The run counter after `k` matching events in a row.
pub open spec fn run_feed_matches<E>(q: RunModel<E>, k: nat) -> RunModel<E>
    decreases k,
{
    if k == 0 {
        q
    } else {
        run_step_matched(run_feed_matches(q, (k - 1) as nat), true)
    }
}

/// Feeding matching events in two batches is feeding them in one.
proof fn lemma_run_feed_add<E>(q: RunModel<E>, a: nat, b: nat)
    ensures
        run_feed_matches(q, a + b) == run_feed_matches(run_feed_matches(q, a), b),
    decreases b,
{
    if b > 0 {
        lemma_run_feed_add(q, a, (b - 1) as nat);
    }
}

/// A complete run counter ignores any number of matching events.
proof fn lemma_run_feed_complete<E>(q: RunModel<E>, k: nat)
    requires
        run_status(q) == QuestStatus::Complete,
    ensures
        run_feed_matches(q, k) == q,
    decreases k,
{
    if k > 0 {
        lemma_run_feed_complete(q, (k - 1) as nat);
    }
}

/// Matching events short of a full run only raise the in-run progress.
proof fn lemma_run_feed_partial<E>(q: RunModel<E>, k: nat)
    requires
        run_wf(q),
        run_status(q) == QuestStatus::Ongoing,
        q.mem_count + k < q.target_mem_count,
    ensures
        run_feed_matches(q, k) == (RunModel { mem_count: q.mem_count + k, ..q }),
    decreases k,
{
    if k == 0 {
    } else {
        lemma_run_feed_partial(q, (k - 1) as nat);
    }
}

/// Exactly one full run of matching events counts exactly one run and
/// starts the progress over.
proof fn lemma_run_feed_one_run<E>(q: RunModel<E>)
    requires
        run_wf(q),
        run_status(q) == QuestStatus::Ongoing,
        q.mem_count == 0,
    ensures
        run_feed_matches(q, q.target_mem_count) == (RunModel {
            count: q.count + 1,
            mem_count: 0,
            ..q
        }),
{
    lemma_run_feed_partial(q, (q.target_mem_count - 1) as nat);
}

/// Run interruption: after any partial run of matching events, a single
/// non-matching event discards the partial progress entirely — the counter
/// is exactly back where it started, with zero additional completed runs.
pub proof fn lemma_run_interruption<E>(q: RunModel<E>, k: nat)
    requires
        run_wf(q),
        run_status(q) == QuestStatus::Ongoing,
        q.mem_count == 0,
        k < q.target_mem_count,
    ensures
        run_step_matched(run_feed_matches(q, k), false) == q,
{
    lemma_run_feed_partial(q, k);
}

/// Whole runs of matching events, uninterrupted, from a fresh counter: `k`
/// full runs complete exactly `k` runs, capped at the target, and the
/// counter is complete exactly when the target is reached.
pub proof fn lemma_run_exact_completion<E>(q: RunModel<E>, k: nat)
    requires
        run_wf(q),
        q.mem_count == 0,
        q.count == 0,
        q.target_mem_count >= 1,
    ensures
        run_feed_matches(q, k * q.target_mem_count) == (RunModel {
            count: if k <= q.target_count {
                k
            } else {
                q.target_count
            },
            mem_count: 0,
            ..q
        }),
        run_status(run_feed_matches(q, k * q.target_mem_count)) == if q.target_count <= k {
            QuestStatus::Complete
        } else {
            QuestStatus::Ongoing
        },
{
    lemma_run_feed_runs(q, k);
}

/// Whole runs of matching events from any in-between-runs state.
proof fn lemma_run_feed_runs<E>(q: RunModel<E>, k: nat)
    requires
        run_wf(q),
        q.mem_count == 0,
        q.target_mem_count >= 1,
    ensures
        run_feed_matches(q, k * q.target_mem_count) == (RunModel {
            count: if q.count + k <= q.target_count {
                q.count + k
            } else {
                q.target_count
            },
            mem_count: 0,
            ..q
        }),
    decreases k,
{
    let len = q.target_mem_count;
    if k == 0 {
        assert(k * len == 0) by (nonlinear_arith)
            requires
                k == 0,
        ;
        assert(RunModel { count: q.count, mem_count: 0, ..q } == q);
    } else {
        assert(k * len == (k - 1) * len + len) by (nonlinear_arith)
            requires
                k >= 1,
        ;
        lemma_run_feed_runs(q, (k - 1) as nat);
        lemma_run_feed_add(q, (k - 1) as nat * len, len);
        let mid = run_feed_matches(q, (k - 1) as nat * len);
        if mid.count == mid.target_count {
            lemma_run_feed_complete(mid, len);
        } else {
            lemma_run_feed_one_run(mid);
        }
    }
}

// ------------------------------------------------------------------
// Sequence gating: only the first ongoing child receives the event.
// ------------------------------------------------------------------

/// When a sequence has an ongoing child, exactly the first one receives the
/// event: every child before it is already complete, and every other child —
/// earlier or later, matching or not — is untouched by the call.
pub proof fn lemma_sequence_gating<E>(q: SequenceModel<E>, matched: bool, i: int)
    requires
        first_ongoing(q.sub_quests) == Some(i),
    ensures
        0 <= i < q.sub_quests.len(),
        counter_status(q.sub_quests[i]) == QuestStatus::Ongoing,
        forall|j: int| 0 <= j < i ==> counter_status(#[trigger] q.sub_quests[j])
            == QuestStatus::Complete,
        sequence_step_matched(q, matched).sub_quests[i] == counter_step_matched(
            q.sub_quests[i],
            matched,
        ),
        forall|j: int|
            0 <= j < q.sub_quests.len() && j != i ==> #[trigger] sequence_step_matched(
                q,
                matched,
            ).sub_quests[j] == q.sub_quests[j],
        sequence_step_matched(q, matched).prompt == q.prompt,
{
    lemma_first_ongoing_props(q.sub_quests);
}

/// A sequence is complete exactly when no child remains ongoing.
pub proof fn lemma_sequence_completion<E>(q: SequenceModel<E>)
    ensures
        sequence_status(q) == QuestStatus::Complete <==> all_counters_complete(q.sub_quests),
        sequence_status(q) == QuestStatus::Complete <==> first_ongoing(q.sub_quests) is None,
{
    lemma_first_ongoing_props(q.sub_quests);
    if first_ongoing(q.sub_quests) is None {
    } else {
        let i = first_ongoing(q.sub_quests)->Some_0;
        assert(counter_status(q.sub_quests[i]) != QuestStatus::Complete);
    }
}

// ------------------------------------------------------------------
// Threshold: at least `target_count` of the children, in any order.
// ------------------------------------------------------------------

/// An aggregate is complete exactly when the number of complete children
/// across all three collections has reached the configured threshold — an
/// "at least" test, independent of the order in which children completed.
pub proof fn lemma_system_threshold<E>(q: SystemModel<E>)
    ensures
        system_status(q) == QuestStatus::Complete <==> system_completed_count(q) >= q.target_count,
{
}

// ------------------------------------------------------------------
// Render shape: the "more times" line appears exactly when the target
// count is not one.
// ------------------------------------------------------------------

/// Decimal digits never contain a newline.
proof fn lemma_dec_digits_no_newline(n: nat)
    ensures
        forall|i: int| 0 <= i < dec_digits(n).len() ==> dec_digits(n)[i] != '\n',
    decreases n,
{
    if n < 10 {
        assert(dec_digits(n)[0] == digit_char(n));
        assert(digit_char(n) != '\n');
    } else {
        lemma_dec_digits_no_newline(n / 10);
        assert forall|i: int| 0 <= i < dec_digits(n).len() implies dec_digits(n)[i] != '\n' by {
            if i < dec_digits(n / 10).len() {
                assert(dec_digits(n)[i] == dec_digits(n / 10)[i]);
            } else {
                assert(dec_digits(n)[i] == digit_char(n % 10));
                assert(digit_char(n % 10) != '\n');
            }
        }
    }
}

/// The rendered report of a counter whose prompt is a single line has a
/// second — "more times" — line exactly when the target count is not one: a
/// target of one renders with no newline at all, any other target renders
/// with exactly one.
pub proof fn lemma_counter_render_shape<E>(q: CounterModel<E>)
    requires
        forall|i: int| 0 <= i < q.prompt.len() ==> q.prompt[i] != '\n',
    ensures
        q.target_count == 1 ==> forall|i: int|
            0 <= i < counter_render(q).len() ==> counter_render(q)[i] != '\n',
        q.target_count != 1 ==> (exists|i: int|
            0 <= i < counter_render(q).len() && counter_render(q)[i] == '\n' && (forall|j: int|
                0 <= j < counter_render(q).len() && j != i ==> counter_render(q)[j] != '\n')),
{
    reveal_strlit("[✅] ");
    reveal_strlit("[ ] ");
    reveal_strlit("...");
    reveal_strlit("\n ^ (Complete ");
    reveal_strlit(" more times)");
    let head = checkbox(counter_status(q)) + q.prompt + "..."@;
    assert forall|i: int| 0 <= i < head.len() implies head[i] != '\n' by {
        let cb = checkbox(counter_status(q));
        if i < cb.len() {
            assert(head[i] == cb[i]);
        } else if i < cb.len() + q.prompt.len() {
            assert(head[i] == q.prompt[i - cb.len()]);
        } else {
            assert(head[i] == "..."@[i - cb.len() - q.prompt.len()]);
        }
    }
    if q.target_count != 1 {
        let w = head.len() as int;
        let s = counter_render(q);
        let marker = "\n ^ (Complete "@;
        let rest = if q.count <= q.target_count {
            (q.target_count - q.count) as nat
        } else {
            0nat
        };
        let digits = dec_digits(rest);
        lemma_dec_digits_no_newline(rest);
        assert(s[w] == '\n');
        assert forall|j: int| 0 <= j < s.len() && j != w implies s[j] != '\n' by {
            if j < w {
                assert(s[j] == head[j]);
            } else if j < w + marker.len() {
                assert(s[j] == marker[j - w]);
            } else if j < w + marker.len() + digits.len() {
                assert(s[j] == digits[j - w - marker.len()]);
            } else {
                assert(s[j] == " more times)"@[j - w - marker.len() - digits.len()]);
            }
        }
    }
}

// ------------------------------------------------------------------
// Idempotent reset: resetting twice is resetting once.
// ------------------------------------------------------------------

/// Resetting a counter twice in a row is the same as resetting it once, and
/// either way the count is back to zero.
pub proof fn lemma_counter_reset_idempotent<E>(q: CounterModel<E>)
    ensures
        counter_reset(counter_reset(q)) == counter_reset(q),
        counter_reset(q).count == 0,
{
}

/// Resetting a run counter twice in a row is the same as resetting it once,
/// and either way both counters are back to zero.
pub proof fn lemma_run_reset_idempotent<E>(q: RunModel<E>)
    ensures
        run_reset(run_reset(q)) == run_reset(q),
        run_reset(q).count == 0,
        run_reset(q).mem_count == 0,
{
}

/// Resetting a sequence twice in a row is the same as resetting it once.
pub proof fn lemma_sequence_reset_idempotent<E>(q: SequenceModel<E>)
    ensures
        sequence_reset(sequence_reset(q)) == sequence_reset(q),
{
    assert(sequence_reset(sequence_reset(q)).sub_quests =~= sequence_reset(q).sub_quests);
    assert(sequence_reset(sequence_reset(q)) =~= sequence_reset(q));
}

/// Resetting an aggregate twice in a row is the same as resetting it once:
/// the whole hierarchy is back to its zero-progress, ongoing state either
/// way.
pub proof fn lemma_system_reset_idempotent<E>(q: SystemModel<E>)
    ensures
        system_reset(system_reset(q)) == system_reset(q),
{
    assert forall|i: int| 0 <= i < q.v_ordered.len() implies #[trigger] system_reset(
        system_reset(q),
    ).v_ordered[i] == system_reset(q).v_ordered[i] by {
        lemma_sequence_reset_idempotent(q.v_ordered[i]);
    }
    assert(system_reset(system_reset(q)).v_ordered =~= system_reset(q).v_ordered);
    assert(system_reset(system_reset(q)).v_sub_quest =~= system_reset(q).v_sub_quest);
    assert(system_reset(system_reset(q)).v_mem_quest =~= system_reset(q).v_mem_quest);
    assert(system_reset(system_reset(q)) =~= system_reset(q));
}

} // verus!
