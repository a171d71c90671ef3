//! The leaf run counter quest.
use crate::model::{
    run_init, run_reset, run_status, run_step, run_step_matched, run_wf, RunModel,
};
use crate::text::{render_leaf, run_render};
use crate::{Quest, QuestExt, QuestStatus};
use vstd::prelude::*;
use vstd::std_specs::cmp::PartialEqSpec;

verus! {

/// The models of a list of run counters, in order.
pub open spec fn run_views<E: PartialEq>(s: Seq<SubMemQuest<E>>) -> Seq<RunModel<E>> {
    s.map_values(|c: SubMemQuest<E>| c@)
}

/// A leaf quest over uninterrupted runs, useful for quests of the kind "walk
/// over 9 blocks of water in a row, 3 times".
///
/// While a plain [`crate::SubQuest`] keeps every matching event, this quest
/// keeps a matching event only as part of an unbroken run: any non-matching
/// event discards the partial run.  Its model is a [`RunModel`]; the status
/// is derived from the counts, so a quest whose target run count is zero, or
/// whose run length is zero, is complete from the start.
#[derive(Debug)]
pub struct SubMemQuest<Event: PartialEq> {
    target_type: Event,
    target_count: u32,
    count: u32,
    target_mem_count: u32,
    mem_count: u32,
    prompt: String,
}

impl<Event: PartialEq> View for SubMemQuest<Event> {
    type V = RunModel<Event>;

    closed spec fn view(&self) -> RunModel<Event> {
        RunModel {
            target_type: self.target_type,
            target_mem_count: self.target_mem_count as nat,
            target_count: self.target_count as nat,
            mem_count: self.mem_count as nat,
            count: self.count as nat,
            prompt: self.prompt@,
        }
    }
}

impl<Event: PartialEq> SubMemQuest<Event> {
    #[verifier::type_invariant]
    spec fn type_inv(self) -> bool {
        run_wf(self@)
    }

    /// Builds a run counter quest.
    ///
    /// * `target_type` — the event to count, compared by equality
    /// * `target_mem_count` — expected number of times of receiving the same
    ///   incoming event without interruption, to make progress on
    ///   `target_count`
    /// * `target_count` — expected number of times of reaching
    ///   `target_mem_count`, to complete the quest
    /// * `prompt` — a string prompt for the quest to be displayed
    pub fn new(
        target_type: Event,
        target_mem_count: u32,
        target_count: u32,
        prompt: String,
    ) -> (q: Self)
        ensures
            q@ == run_init(target_type, target_mem_count as nat, target_count as nat, prompt@),
    {
        SubMemQuest {
            target_type,
            target_count,
            count: 0,
            target_mem_count,
            mem_count: 0,
            prompt,
        }
    }

    /// Registers one event and returns the updated status: while ongoing, a
    /// matching event advances the current run and any other event discards
    /// the partial run; a run reaching the full length counts once, and the
    /// quest completes when the target number of runs is reached.  After
    /// completion every call is a no-op.
    pub fn register_event(&mut self, event: &Event) -> (status: QuestStatus)
        ensures
            Event::obeys_eq_spec() ==> final(self)@ == run_step(old(self)@, *event),
            exists|m: bool| final(self)@ == run_step_matched(old(self)@, m),
            status == run_status(final(self)@),
            run_status(old(self)@) == QuestStatus::Complete ==> final(self)@ == old(self)@,
    {
        proof {
            use_type_invariant(&*self);
        }
        let ghost pre = (*self)@;
        if self.count != self.target_count && self.target_mem_count != 0 {
            let matched = *event == self.target_type;
            let progressed: u32 = if matched {
                self.mem_count + 1
            } else {
                0
            };
            if progressed == self.target_mem_count {
                self.mem_count = 0;
                self.count = self.count + 1;
            } else {
                self.mem_count = progressed;
            }
            proof {
                assert((*self)@ == run_step_matched(pre, matched));
            }
        } else {
            proof {
                assert((*self)@ == run_step_matched(pre, true));
            }
        }
        SubMemQuest::get_status(&*self)
    }

    /// The current status, read without modification.
    pub fn get_status(&self) -> (status: QuestStatus)
        ensures
            status == run_status(self@),
    {
        if self.count == self.target_count || self.target_mem_count == 0 {
            QuestStatus::Complete
        } else {
            QuestStatus::Ongoing
        }
    }

    /// Produces the quest's progress report: a checkbox line with the
    /// prompt and, when the target run count is not one, a line with the
    /// remaining run count.
    pub fn render(&self) -> (s: String)
        ensures
            s@ == run_render(self@),
    {
        proof {
            use_type_invariant(self);
        }
        render_leaf(self.get_status(), &self.prompt, self.target_count, self.count)
    }

    /// Starts the quest over: both counters return to zero, the
    /// configuration stays.
    pub fn reset(&mut self)
        ensures
            final(self)@ == run_reset(old(self)@),
    {
        proof {
            use_type_invariant(&*self);
        }
        self.mem_count = 0;
        self.count = 0;
    }
}

impl<Event: PartialEq> Quest<Event> for SubMemQuest<Event> {
    fn register_event(&mut self, event: &Event) -> QuestStatus {
        SubMemQuest::register_event(self, event)
    }

    fn reset(&mut self) {
        SubMemQuest::reset(self)
    }

    fn render(&self) -> String {
        SubMemQuest::render(self)
    }
}

impl<Event: PartialEq> QuestExt<Event> for SubMemQuest<Event> {
    fn get_status(&mut self) -> QuestStatus {
        SubMemQuest::get_status(self)
    }
}

} // verus!
