//! Position of a learner within a script.

use vstd::prelude::*;

use crate::scripts::{Step, StepType};

verus! {

#[derive(Debug, Clone)]
pub struct RunnerState {
    pub script_id: String,
    pub current_index: usize,
    pub completed: bool,
}

impl RunnerState {
    /// At the first step of script `script_id`, not completed.
    pub fn new(script_id: String) -> (r: Self)
        ensures
            r.script_id@ == script_id@,
            r.current_index == 0,
            !r.completed,
    {
        RunnerState { script_id, current_index: 0, completed: false }
    }

    /// Moves to the next of `step_count` steps; past the last step the run is
    /// completed, and a completed run does not move.
    pub fn next(&mut self, step_count: usize)
        ensures
            final(self).script_id == old(self).script_id,
            old(self).completed ==> *final(self) == *old(self),
            !old(self).completed && old(self).current_index + 1 >= step_count
                ==> final(self).completed && final(self).current_index == old(self).current_index,
            !old(self).completed && old(self).current_index + 1 < step_count
                ==> !final(self).completed && final(self).current_index == old(self).current_index + 1,
    {
        if self.completed {
            return;
        }
        if step_count == 0 || self.current_index >= step_count - 1 {
            self.completed = true;
        } else {
            self.current_index += 1;
        }
    }

    /// Moves back one step, staying at the first.
    pub fn prev(&mut self)
        ensures
            final(self).script_id == old(self).script_id,
            final(self).completed == old(self).completed,
            final(self).current_index == if old(self).current_index > 0 {
                old(self).current_index - 1
            } else {
                0
            },
    {
        if self.current_index > 0 {
            self.current_index -= 1;
        }
    }

    /// Back to the first step, not completed.
    pub fn reset(&mut self)
        ensures
            final(self).script_id == old(self).script_id,
            final(self).current_index == 0,
            !final(self).completed,
    {
        self.current_index = 0;
        self.completed = false;
    }

    /// The type of the current step of `steps`, if there is one.
    pub fn current_step_type(&self, steps: &Vec<Step>) -> (r: Option<StepType>)
        ensures
            self.current_index < steps@.len() ==> r == Some(steps@[self.current_index as int].step_type),
            self.current_index >= steps@.len() ==> r is None,
    {
        if self.current_index < steps.len() {
            Some(steps[self.current_index].step_type)
        } else {
            None
        }
    }

    /// The current step of `steps`, if there is one.
    pub fn current_step<'a>(&self, steps: &'a Vec<Step>) -> (r: Option<&'a Step>)
        ensures
            self.current_index < steps@.len() ==> r == Some(&steps@[self.current_index as int]),
            self.current_index >= steps@.len() ==> r is None,
    {
        if self.current_index < steps.len() {
            Some(&steps[self.current_index])
        } else {
            None
        }
    }
}

} // verus!
