//! Anonymous sharing of role moments, and the reflections others leave on
//! them. Times are nanoseconds since the Unix epoch (UTC).

use vstd::prelude::*;

use crate::ambient::now_nanos;

verus! {

/// A reply left on a shared moment.
#[derive(Debug, Clone)]
pub struct Reflection {
    pub trace_id: String,
    pub message: String,
    pub created_at: i64,
}

impl Reflection {
    pub fn at(trace_id: String, message: String, created_at: i64) -> (r: Self)
        ensures
            r.trace_id@ == trace_id@,
            r.message@ == message@,
            r.created_at == created_at,
    {
        Reflection { trace_id, message, created_at }
    }

    /// A reflection written now.
    pub fn new(trace_id: String, message: String) -> (r: Self)
        ensures
            r.trace_id@ == trace_id@,
            r.message@ == message@,
    {
        Self::at(trace_id, message, now_nanos())
    }
}

/// A shared moment of a role, with the reflections it received.
#[derive(Debug, Clone)]
pub struct ResonanceTrace {
    pub id: String,
    pub role_id: String,
    pub scene_id: String,
    pub message: String,
    pub reflections: Vec<Reflection>,
    pub created_at: i64,
}

impl ResonanceTrace {
    pub fn at(id: String, role_id: String, scene_id: String, message: String, created_at: i64) -> (r:
        Self)
        ensures
            r.id@ == id@,
            r.role_id@ == role_id@,
            r.scene_id@ == scene_id@,
            r.message@ == message@,
            r.reflections@.len() == 0,
            r.created_at == created_at,
    {
        ResonanceTrace { id, role_id, scene_id, message, reflections: Vec::new(), created_at }
    }

    /// A trace shared now, without reflections.
    pub fn new(id: String, role_id: String, scene_id: String, message: String) -> (r: Self)
        ensures
            r.id@ == id@,
            r.role_id@ == role_id@,
            r.scene_id@ == scene_id@,
            r.message@ == message@,
            r.reflections@.len() == 0,
    {
        Self::at(id, role_id, scene_id, message, now_nanos())
    }

    pub fn add_reflection(&mut self, reflection: Reflection)
        ensures
            final(self).reflections@ == old(self).reflections@.push(reflection),
            final(self).id == old(self).id,
            final(self).role_id == old(self).role_id,
            final(self).scene_id == old(self).scene_id,
            final(self).message == old(self).message,
            final(self).created_at == old(self).created_at,
    {
        self.reflections.push(reflection);
    }

    /// How many reflections the trace received, saturating at `u32::MAX`.
    pub fn social_echo_score(&self) -> (r: u32)
        ensures
            r == if self.reflections@.len() > u32::MAX {
                u32::MAX as int
            } else {
                self.reflections@.len() as int
            },
    {
        if self.reflections.len() > u32::MAX as usize {
            u32::MAX
        } else {
            self.reflections.len() as u32
        }
    }
}

} // verus!
