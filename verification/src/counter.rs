//! The leaf counter quest.
use crate::model::{
    counter_init, counter_reset, counter_status, counter_step, counter_step_matched, counter_wf,
    CounterModel,
};
use crate::text::{counter_render, render_leaf};
use crate::{Quest, QuestExt, QuestStatus};
use vstd::prelude::*;
use vstd::std_specs::cmp::PartialEqSpec;

verus! {

/// A leaf quest with a target count for a target event, useful for quests of
/// the kind "the player wins if they walk over 5 sand blocks".
///
/// Its model is a [`CounterModel`]; the status is derived from the counts, so
/// a quest whose target count is zero is complete from the start.
#[derive(Debug)]
pub struct SubQuest<Event: PartialEq> {
    target_type: Event,
    target_count: u32,
    count: u32,
    prompt: String,
}

/// The models of a list of counters, in order.
pub open spec fn counter_views<E: PartialEq>(s: Seq<SubQuest<E>>) -> Seq<CounterModel<E>> {
    s.map_values(|c: SubQuest<E>| c@)
}

impl<Event: PartialEq> View for SubQuest<Event> {
    type V = CounterModel<Event>;

    closed spec fn view(&self) -> CounterModel<Event> {
        CounterModel {
            target_type: self.target_type,
            target_count: self.target_count as nat,
            count: self.count as nat,
            prompt: self.prompt@,
        }
    }
}

impl<Event: PartialEq> SubQuest<Event> {
    #[verifier::type_invariant]
    spec fn type_inv(self) -> bool {
        counter_wf(self@)
    }

    /// Builds a counter quest.
    ///
    /// * `target_type` — the event to count, compared by equality
    /// * `target_count` — expected event count to complete the quest
    /// * `prompt` — a string prompt for the quest to be displayed
    pub fn new(target_type: Event, target_count: u32, prompt: String) -> (q: Self)
        ensures
            q@ == counter_init(target_type, target_count as nat, prompt@),
    {
        SubQuest { target_type, target_count, count: 0, prompt }
    }

    /// Registers one event and returns the updated status: while ongoing, a
    /// matching event raises the count by one, completing the quest when the
    /// target count is reached; after completion every call is a no-op.
    pub fn register_event(&mut self, event: &Event) -> (status: QuestStatus)
        ensures
            Event::obeys_eq_spec() ==> final(self)@ == counter_step(old(self)@, *event),
            exists|m: bool| final(self)@ == counter_step_matched(old(self)@, m),
            status == counter_status(final(self)@),
            counter_status(old(self)@) == QuestStatus::Complete ==> final(self)@ == old(self)@,
    {
        proof {
            use_type_invariant(&*self);
        }
        let ghost pre = (*self)@;
        if self.count != self.target_count {
            let m = *event == self.target_type;
            if m {
                self.count = self.count + 1;
            }
            proof {
                assert((*self)@ == counter_step_matched(pre, m));
            }
        } else {
            proof {
                assert((*self)@ == counter_step_matched(pre, true));
            }
        }
        SubQuest::get_status(&*self)
    }

    /// The current status, read without modification.
    pub fn get_status(&self) -> (status: QuestStatus)
        ensures
            status == counter_status(self@),
    {
        if self.count == self.target_count {
            QuestStatus::Complete
        } else {
            QuestStatus::Ongoing
        }
    }

    /// Produces the quest's progress report: a checkbox line with the
    /// prompt and, when the target count is not one, a line with the
    /// remaining count.
    pub fn render(&self) -> (s: String)
        ensures
            s@ == counter_render(self@),
    {
        proof {
            use_type_invariant(self);
        }
        render_leaf(self.get_status(), &self.prompt, self.target_count, self.count)
    }

    /// Starts the quest over: the count returns to zero, the configuration
    /// stays.
    pub fn reset(&mut self)
        ensures
            final(self)@ == counter_reset(old(self)@),
    {
        self.count = 0;
    }
}

impl<Event: PartialEq> Quest<Event> for SubQuest<Event> {
    fn register_event(&mut self, event: &Event) -> QuestStatus {
        SubQuest::register_event(self, event)
    }

    fn reset(&mut self) {
        SubQuest::reset(self)
    }

    fn render(&self) -> String {
        SubQuest::render(self)
    }
}

impl<Event: PartialEq> QuestExt<Event> for SubQuest<Event> {
    fn get_status(&mut self) -> QuestStatus {
        SubQuest::get_status(self)
    }
}

} // verus!
