//! The ordered composite quest.
use crate::counter::{counter_views, SubQuest};
use crate::model::{
    counter_status, counter_step, counter_step_matched, lemma_first_ongoing_at, sequence_init,
    sequence_reset, sequence_status, sequence_step, sequence_step_matched, SequenceModel,
};
use crate::text::{checkbox, indent, sequence_children_render, sequence_render};
use crate::{vec_index_mut, Quest, QuestExt, QuestStatus};
use vstd::prelude::*;
use vstd::std_specs::cmp::PartialEqSpec;
use vstd::string::StringExecFns;

verus! {

/// The models of a list of ordered quests, in order.
pub open spec fn sequence_views<E: PartialEq>(s: Seq<OrderedQuest<E>>) -> Seq<SequenceModel<E>> {
    s.map_values(|c: OrderedQuest<E>| c@)
}

/// An ordered list of [`SubQuest`] children to be completed in sequence,
/// useful for quests of the kind "first collect five objects called `x`,
/// after finishing that, collect three objects called `y`".
///
/// Only the first ongoing child receives events; a later goal cannot make
/// progress until all earlier goals are finished.  The children are plain
/// counters by design: an ordered step is a simple goal, and composites that
/// mix step kinds belong in a [`crate::QuestSystem`].  Its model is a
/// [`SequenceModel`]; the status is derived from the children, so a sequence
/// with no children is complete from the start.
#[derive(Debug)]
pub struct OrderedQuest<Event: PartialEq> {
    sub_quests: Vec<SubQuest<Event>>,
    prompt: String,
}

impl<Event: PartialEq> View for OrderedQuest<Event> {
    type V = SequenceModel<Event>;

    closed spec fn view(&self) -> SequenceModel<Event> {
        SequenceModel { sub_quests: counter_views(self.sub_quests@), prompt: self.prompt@ }
    }
}

impl<Event: PartialEq> OrderedQuest<Event> {
    /// Builds an ordered quest over the given children, with its fixed
    /// prompt.
    pub fn new(sub_quests: Vec<SubQuest<Event>>) -> (q: Self)
        ensures
            q@ == sequence_init(counter_views(sub_quests@)),
    {
        OrderedQuest {
            sub_quests,
            prompt: String::from_str("You must, in order, complete each of these quests:"),
        }
    }

    /// Registers one event and returns the updated status: the event is
    /// forwarded to the first ongoing child only, and the quest is complete
    /// exactly when no child remains ongoing.
    pub fn register_event(&mut self, event: &Event) -> (status: QuestStatus)
        ensures
            Event::obeys_eq_spec() ==> final(self)@ == sequence_step(old(self)@, *event),
            exists|m: bool| final(self)@ == sequence_step_matched(old(self)@, m),
            status == sequence_status(final(self)@),
            sequence_status(old(self)@) == QuestStatus::Complete ==> final(self)@ == old(self)@,
    {
        let ghost pre = (*self)@;
        let n = self.sub_quests.len();
        let mut j: usize = 0;
        while j < n && self.sub_quests[j].get_status() == QuestStatus::Complete
            invariant
                n == self.sub_quests@.len(),
                j <= n,
                *self == *old(self),
                pre == (*self)@,
                forall|k: int|
                    0 <= k < j ==> counter_status(#[trigger] pre.sub_quests[k])
                        == QuestStatus::Complete,
            decreases n - j,
        {
            j = j + 1;
        }
        proof {
            lemma_first_ongoing_at(pre.sub_quests, j as int);
        }
        if j < n {
            let child = vec_index_mut(&mut self.sub_quests, j);
            child.register_event(event);
            proof {
                let cf = self.sub_quests@[j as int];
                assert((*self)@.sub_quests =~= pre.sub_quests.update(j as int, cf@));
                if Event::obeys_eq_spec() {
                    assert((*self)@ == sequence_step(pre, *event));
                }
                let mc = choose|m: bool| cf@ == counter_step_matched(pre.sub_quests[j as int], m);
                assert((*self)@ == sequence_step_matched(pre, mc));
            }
        } else {
            proof {
                assert((*self)@ == sequence_step_matched(pre, true));
            }
        }
        self.status_scan()
    }

    /// The current status, read without modification.
    pub fn get_status(&self) -> (status: QuestStatus)
        ensures
            status == sequence_status(self@),
    {
        self.status_scan()
    }

    /// Walks the children and derives the status.
    fn status_scan(&self) -> (status: QuestStatus)
        ensures
            status == sequence_status(self@),
    {
        let n = self.sub_quests.len();
        let mut all_complete = true;
        let mut k: usize = 0;
        while k < n
            invariant
                n == self.sub_quests@.len(),
                k <= n,
                all_complete <==> (forall|k2: int|
                    0 <= k2 < k ==> counter_status(#[trigger] self@.sub_quests[k2])
                        == QuestStatus::Complete),
            decreases n - k,
        {
            let ghost prev = all_complete;
            let child_status = self.sub_quests[k].get_status();
            if child_status == QuestStatus::Ongoing {
                all_complete = false;
            }
            proof {
                assert(self@.sub_quests[k as int] == self.sub_quests@[k as int]@);
                if prev && child_status == QuestStatus::Complete {
                    assert forall|k2: int|
                        0 <= k2 < k + 1 implies counter_status(#[trigger] self@.sub_quests[k2])
                        == QuestStatus::Complete by {}
                }
            }
            k = k + 1;
        }
        if all_complete {
            QuestStatus::Complete
        } else {
            QuestStatus::Ongoing
        }
    }

    /// Produces the quest's progress report: its own checkbox line, then
    /// every child's report indented by one level.
    pub fn render(&self) -> (s: String)
        ensures
            s@ == sequence_render(self@),
    {
        let status = self.get_status();
        let mut s = if status == QuestStatus::Complete {
            String::from_str("[✅] ")
        } else {
            String::from_str("[ ] ")
        };
        s.append(self.prompt.as_str());
        s.append("...\n");
        proof {
            assert(s@ =~= checkbox(sequence_status(self@)) + self@.prompt + "...\n"@
                + sequence_children_render(self@.sub_quests.take(0int)));
        }
        let n = self.sub_quests.len();
        let mut i: usize = 0;
        while i < n
            invariant
                n == self.sub_quests@.len(),
                i <= n,
                s@ == checkbox(sequence_status(self@)) + self@.prompt + "...\n"@
                    + sequence_children_render(self@.sub_quests.take(i as int)),
            decreases n - i,
        {
            let child_text = self.sub_quests[i].render();
            let ind = indent(child_text.as_str());
            s.append(ind.as_str());
            proof {
                assert(self@.sub_quests.take((i + 1) as int).drop_last() =~= self@.sub_quests.take(
                    i as int,
                ));
                assert(self@.sub_quests.take((i + 1) as int).last() == self@.sub_quests[i as int]);
                assert(self@.sub_quests[i as int] == self.sub_quests@[i as int]@);
                assert(s@ =~= checkbox(sequence_status(self@)) + self@.prompt + "...\n"@
                    + sequence_children_render(self@.sub_quests.take((i + 1) as int)));
            }
            i = i + 1;
        }
        proof {
            assert(self@.sub_quests.take(n as int) =~= self@.sub_quests);
        }
        s
    }

    /// Starts the quest over: every child is reset, the configuration stays.
    pub fn reset(&mut self)
        ensures
            final(self)@ == sequence_reset(old(self)@),
    {
        let ghost pre = (*self)@;
        let n = self.sub_quests.len();
        let mut i: usize = 0;
        while i < n
            invariant
                n == self.sub_quests@.len(),
                i <= n,
                self.prompt@ == pre.prompt,
                forall|k: int|
                    0 <= k < i ==> (#[trigger] self.sub_quests@[k])@ == crate::model::counter_reset(
                        pre.sub_quests[k],
                    ),
                forall|k: int| i <= k < n ==> (#[trigger] self.sub_quests@[k])@ == pre.sub_quests[k],
            decreases n - i,
        {
            let child = vec_index_mut(&mut self.sub_quests, i);
            child.reset();
            i = i + 1;
        }
        proof {
            assert((*self)@ =~= sequence_reset(pre));
        }
    }
}

impl<Event: PartialEq> Quest<Event> for OrderedQuest<Event> {
    fn register_event(&mut self, event: &Event) -> QuestStatus {
        OrderedQuest::register_event(self, event)
    }

    fn reset(&mut self) {
        OrderedQuest::reset(self)
    }

    fn render(&self) -> String {
        OrderedQuest::render(self)
    }
}

impl<Event: PartialEq> QuestExt<Event> for OrderedQuest<Event> {
    fn get_status(&mut self) -> QuestStatus {
        OrderedQuest::get_status(self)
    }
}

} // verus!
