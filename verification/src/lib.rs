//! A quest-tracking engine for goal-based games.
//!
//! The engine consumes a stream of domain events (things the player does or
//! encounters) and decides whether a composable hierarchy of goals has been
//! satisfied, while also producing a human-readable progress report at any
//! time.  Four node kinds compose the hierarchy:
//!
//! * [`SubQuest`] — a leaf counter that completes after a target event has
//!   occurred a fixed number of times;
//! * [`SubMemQuest`] — a leaf counter over uninterrupted runs of a target
//!   event, completing after a fixed number of full runs;
//! * [`OrderedQuest`] — an ordered list of counters that must be completed
//!   one at a time, in order;
//! * [`QuestSystem`] — an aggregate that forwards every event to all of its
//!   children and completes once a configured number of them are complete.
//!
//! Every operation is specified against a mathematical model of the node
//! (see [`model`]), and the progress report is specified exactly, character
//! by character (see [`text`]).
use vstd::prelude::*;

pub mod counter;
pub mod event;
pub mod laws;
pub mod model;
pub mod run_counter;
pub mod sequence;
pub mod text;
pub mod threshold;

pub use counter::SubQuest;
pub use event::Block;
pub use run_counter::SubMemQuest;
pub use sequence::OrderedQuest;
pub use threshold::QuestSystem;

verus! {

/// Whether a quest has been completed.
#[derive(Debug, PartialEq, Eq, Clone, Copy, Structural)]
pub enum QuestStatus {
    /// The quest is finished.
    Complete,
    /// The quest still needs work.
    Ongoing,
}

/// What every quest node can do: take note of an event, and start over.
///
/// The methods carry no contracts here; the verified contracts live on the
/// inherent methods of each implementing type, which these trait methods
/// forward to.  The trait exists so that a host can drive any hierarchy
/// through one polymorphic handle.
pub trait Quest<Event> {
    /// Whenever something happens, the host calls `register_event` to tell
    /// the quest what happened; the updated status is returned.
    fn register_event(&mut self, event: &Event) -> QuestStatus;

    /// Reset the quest, so that players can restart.
    fn reset(&mut self);

    /// Produces the quest's multi-line progress report, to show the player
    /// how far along they are.
    fn render(&self) -> String;
}

/// Extends [`Quest`] with a read-only status query.
pub trait QuestExt<Event>: Quest<Event> {
    /// Returns the status of the current quest.
    fn get_status(&mut self) -> QuestStatus;
}

/// Borrows one element of a vector mutably, so that composite quests can
/// forward an event to a child in place.
pub(crate) fn vec_index_mut<T>(v: &mut Vec<T>, i: usize) -> (element: &mut T)
    requires
        i < old(v).len(),
    ensures
        *element == old(v)@[i as int],
        final(v)@ == old(v)@.update(i as int, *final(element)),
{
    &mut v[i]
}

} // verus!
