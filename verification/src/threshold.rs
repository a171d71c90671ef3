//! The threshold composite quest.
use crate::counter::{counter_views, SubQuest};
use crate::model::{
    counter_statuses, counter_status, counter_step, lemma_num_complete_mono,
    lemma_num_complete_take, num_complete, run_status, run_statuses, run_step, sequence_status,
    sequence_statuses, sequence_step, system_init, system_reset, system_status, system_step,
    SystemModel,
};
use crate::run_counter::{run_views, SubMemQuest};
use crate::sequence::{sequence_views, OrderedQuest};
use crate::text::{
    checkbox, indent, system_counters_render, system_ordered_render, system_render,
    system_runs_render, u32_text,
};
use crate::{vec_index_mut, Quest, QuestExt, QuestStatus};
use vstd::prelude::*;
use vstd::std_specs::cmp::PartialEqSpec;
use vstd::string::StringExecFns;

verus! {

/// How many more complete children are still needed, once `done` of them
/// are complete.
spec fn remaining_after(target: nat, done: nat) -> nat {
    if done >= target {
        0
    } else {
        (target - done) as nat
    }
}

/// An aggregate storing any number of [`OrderedQuest`], [`SubQuest`] and
/// [`SubMemQuest`] children, complete once the player has completed a
/// configured number of them — useful for quests of the kind "the player
/// wins if they do 2 of the following".
///
/// Every event is forwarded to every child in every collection; each child
/// applies its own no-op rule after completion.  The children are kept in
/// three collections, one per node kind, and that order — sequences, then
/// counters, then run counters — is also the order of the rendered report.
/// Its model is a [`SystemModel`]; the status is derived from the children,
/// so the threshold test is a true "at least" test and the aggregate stays
/// complete however its children move on.
#[derive(Debug)]
pub struct QuestSystem<Event: PartialEq> {
    v_ordered: Vec<OrderedQuest<Event>>,
    v_sub_quest: Vec<SubQuest<Event>>,
    v_mem_quest: Vec<SubMemQuest<Event>>,
    target_count: u32,
    prompt: String,
}

impl<Event: PartialEq> View for QuestSystem<Event> {
    type V = SystemModel<Event>;

    closed spec fn view(&self) -> SystemModel<Event> {
        SystemModel {
            v_ordered: sequence_views(self.v_ordered@),
            v_sub_quest: counter_views(self.v_sub_quest@),
            v_mem_quest: run_views(self.v_mem_quest@),
            target_count: self.target_count as nat,
            prompt: self.prompt@,
        }
    }
}

impl<Event: PartialEq> QuestSystem<Event> {
    /// Builds an aggregate quest.
    ///
    /// * `v_ordered` — the [`OrderedQuest`] children
    /// * `v_sub_quest` — the [`SubQuest`] children
    /// * `v_mem_quest` — the [`SubMemQuest`] children
    /// * `target_count` — the number of stored quests that need to be
    ///   completed in order to complete the quest system
    pub fn new(
        v_ordered: Vec<OrderedQuest<Event>>,
        v_sub_quest: Vec<SubQuest<Event>>,
        v_mem_quest: Vec<SubMemQuest<Event>>,
        target_count: u32,
    ) -> (q: QuestSystem<Event>)
        ensures
            q@ == system_init(
                sequence_views(v_ordered@),
                counter_views(v_sub_quest@),
                run_views(v_mem_quest@),
                target_count as nat,
            ),
    {
        let mut prompt = String::from_str("You must complete at least ");
        let num = u32_text(target_count);
        prompt.append(num.as_str());
        prompt.append(" of these quests");
        QuestSystem { v_ordered, v_sub_quest, v_mem_quest, target_count, prompt }
    }

    /// Registers one event and returns the updated status: the event is
    /// forwarded unconditionally to every child in every collection, and the
    /// quest is complete exactly when at least `target_count` children are
    /// complete.  A complete aggregate stays complete.
    pub fn register_event(&mut self, event: &Event) -> (status: QuestStatus)
        ensures
            Event::obeys_eq_spec() ==> final(self)@ == system_step(old(self)@, *event),
            final(self)@.target_count == old(self)@.target_count,
            final(self)@.prompt == old(self)@.prompt,
            final(self)@.v_ordered.len() == old(self)@.v_ordered.len(),
            final(self)@.v_sub_quest.len() == old(self)@.v_sub_quest.len(),
            final(self)@.v_mem_quest.len() == old(self)@.v_mem_quest.len(),
            forall|i: int|
                0 <= i < old(self)@.v_ordered.len() && sequence_status(old(self)@.v_ordered[i])
                    == QuestStatus::Complete ==> #[trigger] final(self)@.v_ordered[i] == old(
                    self,
                )@.v_ordered[i],
            forall|i: int|
                0 <= i < old(self)@.v_sub_quest.len() && counter_status(old(self)@.v_sub_quest[i])
                    == QuestStatus::Complete ==> #[trigger] final(self)@.v_sub_quest[i] == old(
                    self,
                )@.v_sub_quest[i],
            forall|i: int|
                0 <= i < old(self)@.v_mem_quest.len() && run_status(old(self)@.v_mem_quest[i])
                    == QuestStatus::Complete ==> #[trigger] final(self)@.v_mem_quest[i] == old(
                    self,
                )@.v_mem_quest[i],
            status == system_status(final(self)@),
            system_status(old(self)@) == QuestStatus::Complete ==> status == QuestStatus::Complete,
    {
        let ghost pre = (*self)@;
        let n0 = self.v_ordered.len();
        let mut i: usize = 0;
        while i < n0
            invariant
                n0 == self.v_ordered@.len(),
                i <= n0,
                (*self)@.v_sub_quest == pre.v_sub_quest,
                (*self)@.v_mem_quest == pre.v_mem_quest,
                (*self)@.target_count == pre.target_count,
                (*self)@.prompt == pre.prompt,
                Event::obeys_eq_spec() ==> forall|k: int|
                    0 <= k < i ==> (#[trigger] self.v_ordered@[k])@ == sequence_step(
                        pre.v_ordered[k],
                        *event,
                    ),
                forall|k: int|
                    0 <= k < i && sequence_status(pre.v_ordered[k]) == QuestStatus::Complete
                        ==> (#[trigger] self.v_ordered@[k])@ == pre.v_ordered[k],
                forall|k: int| i <= k < n0 ==> (#[trigger] self.v_ordered@[k])@ == pre.v_ordered[k],
            decreases n0 - i,
        {
            let child = vec_index_mut(&mut self.v_ordered, i);
            child.register_event(event);
            i = i + 1;
        }
        let ghost ordered_done = self.v_ordered@;
        let n1 = self.v_sub_quest.len();
        let mut j: usize = 0;
        while j < n1
            invariant
                n1 == self.v_sub_quest@.len(),
                j <= n1,
                (*self)@.v_ordered.len() == n0,
                (*self)@.v_mem_quest == pre.v_mem_quest,
                (*self)@.target_count == pre.target_count,
                (*self)@.prompt == pre.prompt,
                self.v_ordered@ == ordered_done,
                Event::obeys_eq_spec() ==> forall|k: int|
                    0 <= k < j ==> (#[trigger] self.v_sub_quest@[k])@ == counter_step(
                        pre.v_sub_quest[k],
                        *event,
                    ),
                forall|k: int|
                    0 <= k < j && counter_status(pre.v_sub_quest[k]) == QuestStatus::Complete
                        ==> (#[trigger] self.v_sub_quest@[k])@ == pre.v_sub_quest[k],
                forall|k: int|
                    j <= k < n1 ==> (#[trigger] self.v_sub_quest@[k])@ == pre.v_sub_quest[k],
            decreases n1 - j,
        {
            let child = vec_index_mut(&mut self.v_sub_quest, j);
            child.register_event(event);
            j = j + 1;
        }
        let ghost counters_done = self.v_sub_quest@;
        let n2 = self.v_mem_quest.len();
        let mut l: usize = 0;
        while l < n2
            invariant
                n2 == self.v_mem_quest@.len(),
                l <= n2,
                (*self)@.target_count == pre.target_count,
                (*self)@.prompt == pre.prompt,
                self.v_ordered@ == ordered_done,
                self.v_sub_quest@ == counters_done,
                Event::obeys_eq_spec() ==> forall|k: int|
                    0 <= k < l ==> (#[trigger] self.v_mem_quest@[k])@ == run_step(
                        pre.v_mem_quest[k],
                        *event,
                    ),
                forall|k: int|
                    0 <= k < l && run_status(pre.v_mem_quest[k]) == QuestStatus::Complete
                        ==> (#[trigger] self.v_mem_quest@[k])@ == pre.v_mem_quest[k],
                forall|k: int|
                    l <= k < n2 ==> (#[trigger] self.v_mem_quest@[k])@ == pre.v_mem_quest[k],
            decreases n2 - l,
        {
            let child = vec_index_mut(&mut self.v_mem_quest, l);
            child.register_event(event);
            l = l + 1;
        }
        proof {
            if Event::obeys_eq_spec() {
                assert((*self)@.v_ordered =~= pre.v_ordered.map_values(
                    |c: crate::model::SequenceModel<Event>| sequence_step(c, *event),
                ));
                assert((*self)@.v_sub_quest =~= pre.v_sub_quest.map_values(
                    |c: crate::model::CounterModel<Event>| counter_step(c, *event),
                ));
                assert((*self)@.v_mem_quest =~= pre.v_mem_quest.map_values(
                    |c: crate::model::RunModel<Event>| run_step(c, *event),
                ));
                assert((*self)@ =~= system_step(pre, *event));
            }
            let post = (*self)@;
            assert forall|k: int|
                0 <= k < n0 && sequence_statuses(pre.v_ordered)[k]
                    == QuestStatus::Complete implies #[trigger] sequence_statuses(post.v_ordered)[k]
                == QuestStatus::Complete by {
                assert(post.v_ordered[k] == pre.v_ordered[k]);
            }
            lemma_num_complete_mono(
                sequence_statuses(pre.v_ordered),
                sequence_statuses(post.v_ordered),
            );
            assert forall|k: int|
                0 <= k < n1 && counter_statuses(pre.v_sub_quest)[k]
                    == QuestStatus::Complete implies #[trigger] counter_statuses(
                post.v_sub_quest,
            )[k] == QuestStatus::Complete by {
                assert(post.v_sub_quest[k] == pre.v_sub_quest[k]);
            }
            lemma_num_complete_mono(
                counter_statuses(pre.v_sub_quest),
                counter_statuses(post.v_sub_quest),
            );
            assert forall|k: int|
                0 <= k < n2 && run_statuses(pre.v_mem_quest)[k]
                    == QuestStatus::Complete implies #[trigger] run_statuses(post.v_mem_quest)[k]
                == QuestStatus::Complete by {
                assert(post.v_mem_quest[k] == pre.v_mem_quest[k]);
            }
            lemma_num_complete_mono(run_statuses(pre.v_mem_quest), run_statuses(post.v_mem_quest));
        }
        self.status_scan()
    }

    /// The current status, read without modification.
    pub fn get_status(&self) -> (status: QuestStatus)
        ensures
            status == system_status(self@),
    {
        self.status_scan()
    }

    /// Walks all children and derives the status by counting down from the
    /// threshold.
    fn status_scan(&self) -> (status: QuestStatus)
        ensures
            status == system_status(self@),
    {
        let mut remaining: u32 = self.target_count;
        let n0 = self.v_ordered.len();
        let mut i: usize = 0;
        while i < n0
            invariant
                n0 == self.v_ordered@.len(),
                i <= n0,
                remaining as nat == remaining_after(
                    self@.target_count,
                    num_complete(sequence_statuses(self@.v_ordered).take(i as int)),
                ),
            decreases n0 - i,
        {
            proof {
                lemma_num_complete_take(sequence_statuses(self@.v_ordered), i as int);
                assert(sequence_statuses(self@.v_ordered)[i as int] == sequence_status(
                    self@.v_ordered[i as int],
                ));
            }
            if self.v_ordered[i].get_status() == QuestStatus::Complete && remaining > 0 {
                remaining = remaining - 1;
            }
            i = i + 1;
        }
        proof {
            assert(sequence_statuses(self@.v_ordered).take(n0 as int) =~= sequence_statuses(
                self@.v_ordered,
            ));
        }
        let ghost done0 = num_complete(sequence_statuses(self@.v_ordered));
        let n1 = self.v_sub_quest.len();
        let mut j: usize = 0;
        while j < n1
            invariant
                n1 == self.v_sub_quest@.len(),
                j <= n1,
                remaining as nat == remaining_after(
                    self@.target_count,
                    done0 + num_complete(counter_statuses(self@.v_sub_quest).take(j as int)),
                ),
            decreases n1 - j,
        {
            proof {
                lemma_num_complete_take(counter_statuses(self@.v_sub_quest), j as int);
                assert(counter_statuses(self@.v_sub_quest)[j as int] == counter_status(
                    self@.v_sub_quest[j as int],
                ));
            }
            if self.v_sub_quest[j].get_status() == QuestStatus::Complete && remaining > 0 {
                remaining = remaining - 1;
            }
            j = j + 1;
        }
        proof {
            assert(counter_statuses(self@.v_sub_quest).take(n1 as int) =~= counter_statuses(
                self@.v_sub_quest,
            ));
        }
        let ghost done1 = done0 + num_complete(counter_statuses(self@.v_sub_quest));
        let n2 = self.v_mem_quest.len();
        let mut l: usize = 0;
        while l < n2
            invariant
                n2 == self.v_mem_quest@.len(),
                l <= n2,
                remaining as nat == remaining_after(
                    self@.target_count,
                    done1 + num_complete(run_statuses(self@.v_mem_quest).take(l as int)),
                ),
            decreases n2 - l,
        {
            proof {
                lemma_num_complete_take(run_statuses(self@.v_mem_quest), l as int);
                assert(run_statuses(self@.v_mem_quest)[l as int] == run_status(
                    self@.v_mem_quest[l as int],
                ));
            }
            if self.v_mem_quest[l].get_status() == QuestStatus::Complete && remaining > 0 {
                remaining = remaining - 1;
            }
            l = l + 1;
        }
        proof {
            assert(run_statuses(self@.v_mem_quest).take(n2 as int) =~= run_statuses(
                self@.v_mem_quest,
            ));
        }
        if remaining == 0 {
            QuestStatus::Complete
        } else {
            QuestStatus::Ongoing
        }
    }

    /// Produces the quest's progress report: its own checkbox line, then
    /// every child's report indented by one level, sequences first, then
    /// counters, then run counters.
    pub fn render(&self) -> (s: String)
        ensures
            s@ == system_render(self@),
    {
        let status = self.get_status();
        let mut s = if status == QuestStatus::Complete {
            String::from_str("[✅] ")
        } else {
            String::from_str("[ ] ")
        };
        s.append(self.prompt.as_str());
        s.append("...\n");
        let ghost head = checkbox(system_status(self@)) + self@.prompt + "...\n"@;
        proof {
            assert(s@ =~= head + system_ordered_render(self@.v_ordered.take(0int)));
        }
        let n0 = self.v_ordered.len();
        let mut i: usize = 0;
        while i < n0
            invariant
                n0 == self.v_ordered@.len(),
                i <= n0,
                s@ == head + system_ordered_render(self@.v_ordered.take(i as int)),
            decreases n0 - i,
        {
            let child_text = self.v_ordered[i].render();
            let ind = indent(child_text.as_str());
            s.append(ind.as_str());
            proof {
                assert(self@.v_ordered.take((i + 1) as int).drop_last() =~= self@.v_ordered.take(
                    i as int,
                ));
                assert(self@.v_ordered.take((i + 1) as int).last() == self@.v_ordered[i as int]);
                assert(self@.v_ordered[i as int] == self.v_ordered@[i as int]@);
                assert(s@ =~= head + system_ordered_render(self@.v_ordered.take((i + 1) as int)));
            }
            i = i + 1;
        }
        let ghost head1 = head + system_ordered_render(self@.v_ordered);
        proof {
            assert(self@.v_ordered.take(n0 as int) =~= self@.v_ordered);
            assert(s@ =~= head1 + system_counters_render(self@.v_sub_quest.take(0int)));
        }
        let n1 = self.v_sub_quest.len();
        let mut j: usize = 0;
        while j < n1
            invariant
                n1 == self.v_sub_quest@.len(),
                j <= n1,
                s@ == head1 + system_counters_render(self@.v_sub_quest.take(j as int)),
            decreases n1 - j,
        {
            let child_text = self.v_sub_quest[j].render();
            let ind = indent(child_text.as_str());
            s.append(ind.as_str());
            proof {
                assert(self@.v_sub_quest.take((j + 1) as int).drop_last()
                    =~= self@.v_sub_quest.take(j as int));
                assert(self@.v_sub_quest.take((j + 1) as int).last()
                    == self@.v_sub_quest[j as int]);
                assert(self@.v_sub_quest[j as int] == self.v_sub_quest@[j as int]@);
                assert(s@ =~= head1 + system_counters_render(
                    self@.v_sub_quest.take((j + 1) as int),
                ));
            }
            j = j + 1;
        }
        let ghost head2 = head1 + system_counters_render(self@.v_sub_quest);
        proof {
            assert(self@.v_sub_quest.take(n1 as int) =~= self@.v_sub_quest);
            assert(s@ =~= head2 + system_runs_render(self@.v_mem_quest.take(0int)));
        }
        let n2 = self.v_mem_quest.len();
        let mut l: usize = 0;
        while l < n2
            invariant
                n2 == self.v_mem_quest@.len(),
                l <= n2,
                s@ == head2 + system_runs_render(self@.v_mem_quest.take(l as int)),
            decreases n2 - l,
        {
            let child_text = self.v_mem_quest[l].render();
            let ind = indent(child_text.as_str());
            s.append(ind.as_str());
            proof {
                assert(self@.v_mem_quest.take((l + 1) as int).drop_last()
                    =~= self@.v_mem_quest.take(l as int));
                assert(self@.v_mem_quest.take((l + 1) as int).last()
                    == self@.v_mem_quest[l as int]);
                assert(self@.v_mem_quest[l as int] == self.v_mem_quest@[l as int]@);
                assert(s@ =~= head2 + system_runs_render(self@.v_mem_quest.take((l + 1) as int)));
            }
            l = l + 1;
        }
        proof {
            assert(self@.v_mem_quest.take(n2 as int) =~= self@.v_mem_quest);
            assert(s@ =~= system_render(self@));
        }
        s
    }

    /// Starts the quest over: every child in every collection is reset, the
    /// configuration stays.
    pub fn reset(&mut self)
        ensures
            final(self)@ == system_reset(old(self)@),
    {
        let ghost pre = (*self)@;
        let n0 = self.v_ordered.len();
        let mut i: usize = 0;
        while i < n0
            invariant
                n0 == self.v_ordered@.len(),
                i <= n0,
                (*self)@.v_sub_quest == pre.v_sub_quest,
                (*self)@.v_mem_quest == pre.v_mem_quest,
                (*self)@.target_count == pre.target_count,
                (*self)@.prompt == pre.prompt,
                forall|k: int|
                    0 <= k < i ==> (#[trigger] self.v_ordered@[k])@ == crate::model::sequence_reset(
                        pre.v_ordered[k],
                    ),
                forall|k: int| i <= k < n0 ==> (#[trigger] self.v_ordered@[k])@ == pre.v_ordered[k],
            decreases n0 - i,
        {
            let child = vec_index_mut(&mut self.v_ordered, i);
            child.reset();
            i = i + 1;
        }
        let n1 = self.v_sub_quest.len();
        let mut j: usize = 0;
        while j < n1
            invariant
                n1 == self.v_sub_quest@.len(),
                j <= n1,
                (*self)@.v_ordered.len() == n0,
                (*self)@.v_mem_quest == pre.v_mem_quest,
                (*self)@.target_count == pre.target_count,
                (*self)@.prompt == pre.prompt,
                forall|k: int|
                    0 <= k < n0 ==> (#[trigger] self.v_ordered@[k])@ == crate::model::sequence_reset(
                        pre.v_ordered[k],
                    ),
                forall|k: int|
                    0 <= k < j ==> (#[trigger] self.v_sub_quest@[k])@ == crate::model::counter_reset(
                        pre.v_sub_quest[k],
                    ),
                forall|k: int|
                    j <= k < n1 ==> (#[trigger] self.v_sub_quest@[k])@ == pre.v_sub_quest[k],
            decreases n1 - j,
        {
            let child = vec_index_mut(&mut self.v_sub_quest, j);
            child.reset();
            j = j + 1;
        }
        let n2 = self.v_mem_quest.len();
        let mut l: usize = 0;
        while l < n2
            invariant
                n2 == self.v_mem_quest@.len(),
                l <= n2,
                (*self)@.v_ordered.len() == n0,
                (*self)@.v_sub_quest.len() == n1,
                (*self)@.target_count == pre.target_count,
                (*self)@.prompt == pre.prompt,
                forall|k: int|
                    0 <= k < n0 ==> (#[trigger] self.v_ordered@[k])@ == crate::model::sequence_reset(
                        pre.v_ordered[k],
                    ),
                forall|k: int|
                    0 <= k < n1 ==> (#[trigger] self.v_sub_quest@[k])@ == crate::model::counter_reset(
                        pre.v_sub_quest[k],
                    ),
                forall|k: int|
                    0 <= k < l ==> (#[trigger] self.v_mem_quest@[k])@ == crate::model::run_reset(
                        pre.v_mem_quest[k],
                    ),
                forall|k: int|
                    l <= k < n2 ==> (#[trigger] self.v_mem_quest@[k])@ == pre.v_mem_quest[k],
            decreases n2 - l,
        {
            let child = vec_index_mut(&mut self.v_mem_quest, l);
            child.reset();
            l = l + 1;
        }
        proof {
            assert((*self)@.v_ordered =~= system_reset(pre).v_ordered);
            assert((*self)@.v_sub_quest =~= system_reset(pre).v_sub_quest);
            assert((*self)@.v_mem_quest =~= system_reset(pre).v_mem_quest);
            assert((*self)@ =~= system_reset(pre));
        }
    }
}

impl<Event: PartialEq> Quest<Event> for QuestSystem<Event> {
    fn register_event(&mut self, event: &Event) -> QuestStatus {
        QuestSystem::register_event(self, event)
    }

    fn reset(&mut self) {
        QuestSystem::reset(self)
    }

    fn render(&self) -> String {
        QuestSystem::render(self)
    }
}

impl<Event: PartialEq> QuestExt<Event> for QuestSystem<Event> {
    fn get_status(&mut self) -> QuestStatus {
        QuestSystem::get_status(self)
    }
}

} // verus!
