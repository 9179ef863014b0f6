//! What a match reports while it runs, and the sink it reports to.
use vstd::prelude::*;
use vstd::string::*;
use crate::engine::{outcome_text_spec, MatchOutcome};
use crate::text::{decimal_text_spec, push_decimal};
use crate::warrior::{warrior_text_spec, Warrior};

verus! {

/// What a cycle that ran a task did: the task's program counter, the cell the
/// instruction's B operand pointed to, and the warrior whose task it was.
#[derive(Debug, Clone, Copy, PartialEq, Eq)]
pub struct StepDetails<'a> {
    pub pc: usize,
    pub destination: usize,
    pub warrior: &'a Warrior,
}

/// An event of a match.
#[derive(Debug, Clone, PartialEq, Eq)]
pub enum GameEvent<'a> {
    /// A warrior had no task left when its turn came.
    WarriorKilled(&'a Warrior),
    /// The match has ended.
    GameOver(MatchOutcome<'a>),
    /// A task has run and the match goes on.
    Continue(StepDetails<'a>),
}

/// The line that a log shows for an event after `cycle_count` cycles: one
/// for a warrior found dead and one for the end of the match, none for a
/// task that ran.
pub open spec fn message_spec(event: GameEvent, cycle_count: usize) -> Option<Seq<char>> {
    match event {
        GameEvent::WarriorKilled(warrior) => Some(
            "Killing a warrior: "@ + warrior_text_spec(warrior@) + " after "@ + decimal_text_spec(
                cycle_count as nat,
            ) + " cycles"@,
        ),
        GameEvent::GameOver(outcome) => Some(
            "Game over! "@ + outcome_text_spec(outcome@) + " after "@ + decimal_text_spec(
                cycle_count as nat,
            ) + " cycles"@,
        ),
        GameEvent::Continue(_) => None,
    }
}

impl<'a> GameEvent<'a> {
    /// The line that a log shows for the event after `cycle_count` cycles.
    pub fn message(&self, cycle_count: usize) -> (line: Option<String>)
        ensures
            line is Some == message_spec(*self, cycle_count) is Some,
            line matches Some(text) ==> Some(text@) == message_spec(*self, cycle_count),
    {
        match self {
            GameEvent::WarriorKilled(warrior) => {
                let mut text = "Killing a warrior: ".to_owned();
                text.append(warrior.to_string().as_str());
                text.append(" after ");
                push_decimal(&mut text, cycle_count as u128);
                text.append(" cycles");
                assert(Some(text@) =~= message_spec(*self, cycle_count));
                Some(text)
            },
            GameEvent::GameOver(outcome) => {
                let mut text = "Game over! ".to_owned();
                text.append(outcome.to_string().as_str());
                text.append(" after ");
                push_decimal(&mut text, cycle_count as u128);
                text.append(" cycles");
                assert(Some(text@) =~= message_spec(*self, cycle_count));
                Some(text)
            },
            GameEvent::Continue(_) => None,
        }
    }
}

/// A sink for the events of a match. With each event it is handed the number
/// of cycles the match has run. Matches may run on several threads at once,
/// so a logger can be shared between threads.
pub trait Logger: Send + Sync {
    /// Takes an event in, `cycle_count` cycles into the match.
    fn log(&self, cycle_count: usize, event: GameEvent);
}

} // verus!
