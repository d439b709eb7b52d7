//! Roles a learner takes on, and the paths that chain them.

use vstd::prelude::*;

verus! {

#[derive(Debug, Clone, Copy, PartialEq, Eq, Structural)]
pub enum Difficulty {
    Beginner,
    Intermediate,
    Advanced,
}

impl Default for Difficulty {
    fn default() -> (r: Self)
        ensures
            r == Difficulty::Intermediate,
    {
        Difficulty::Intermediate
    }
}

/// A professional or life identity that the learner practises through scenarios.
#[derive(Debug, Clone)]
pub struct Role {
    pub id: String,
    pub title: String,
    pub description: String,
    pub goal: Option<String>,
    pub icon: Option<String>,
    pub benchmarks: Vec<String>,
    pub scenario_ids: Vec<String>,
    pub difficulty: Difficulty,
}

/// A sequence of roles to go through in order.
#[derive(Debug, Clone)]
pub struct RolePath {
    pub id: String,
    pub title: String,
    pub description: String,
    pub role_ids: Vec<String>,
}

/// `p` is the first position of `id` in `ids`.
pub open spec fn first_position(ids: Seq<String>, id: Seq<char>, p: int) -> bool {
    0 <= p < ids.len() && ids[p]@ == id && forall|j: int| 0 <= j < p ==> ids[j]@ != id
}

/// How many of `ids` occur in `done`.
pub open spec fn count_done(ids: Seq<String>, done: Seq<String>) -> nat
    decreases ids.len(),
{
    if ids.len() == 0 {
        0
    } else {
        count_done(ids.drop_last(), done) + if exists|k: int|
            0 <= k < done.len() && done[k]@ == ids.last()@ {
            1nat
        } else {
            0nat
        }
    }
}

impl RolePath {
    /// How many roles of the path are among `completed_roles`.
    pub fn completed_count(&self, completed_roles: &Vec<String>) -> (r: usize)
        ensures
            r == count_done(self.role_ids@, completed_roles@),
    {
        let mut n: usize = 0;
        let mut i: usize = 0;
        while i < self.role_ids.len()
            invariant
                0 <= i <= self.role_ids.len(),
                n == count_done(self.role_ids@.subrange(0, i as int), completed_roles@),
                n <= i,
            decreases self.role_ids.len() - i,
        {
            let mut found = false;
            let mut k: usize = 0;
            while k < completed_roles.len()
                invariant
                    0 <= k <= completed_roles.len(),
                    i < self.role_ids.len(),
                    found <==> exists|c: int|
                        0 <= c < k && completed_roles@[c]@ == self.role_ids@[i as int]@,
                decreases completed_roles.len() - k,
            {
                if completed_roles[k] == self.role_ids[i] {
                    found = true;
                }
                k += 1;
            }
            proof {
                let cur = self.role_ids@.subrange(0, i + 1);
                assert(cur.drop_last() =~= self.role_ids@.subrange(0, i as int));
                assert(cur.last() == self.role_ids@[i as int]);
            }
            if found {
                n += 1;
            }
            i += 1;
        }
        assert(self.role_ids@.subrange(0, i as int) =~= self.role_ids@);
        n
    }

    /// The role that follows the first occurrence of `current_role_id`, if
    /// that role is on the path and not its last.
    pub fn next_role(&self, current_role_id: &str) -> (r: Option<&str>)
        ensures
            r is Some <==> exists|p: int|
                first_position(self.role_ids@, current_role_id@, p) && p + 1
                    < self.role_ids@.len(),
            r matches Some(s) ==> exists|p: int|
                first_position(self.role_ids@, current_role_id@, p) && p + 1
                    < self.role_ids@.len() && s@ == self.role_ids@[p + 1]@,
    {
        let wanted = current_role_id.to_owned();
        let mut i: usize = 0;
        while i < self.role_ids.len()
            invariant
                0 <= i <= self.role_ids.len(),
                wanted@ == current_role_id@,
                forall|j: int| 0 <= j < i ==> self.role_ids@[j]@ != current_role_id@,
            decreases self.role_ids.len() - i,
        {
            if self.role_ids[i] == wanted {
                assert(first_position(self.role_ids@, current_role_id@, i as int));
                if i + 1 < self.role_ids.len() {
                    return Some(self.role_ids[i + 1].as_str());
                } else {
                    assert forall|p: int|
                        first_position(self.role_ids@, current_role_id@, p) implies p + 1
                        >= self.role_ids@.len() by {
                        assert(p == i as int);
                    }
                    return None;
                }
            }
            i += 1;
        }
        None
    }
}

/// Tones that count as composed: calm, confident or clear.
pub open spec fn composed_tone(tone: Seq<char>) -> bool {
    tone == "Calm"@ || tone == "Confident"@ || tone == "Clear"@
}

/// Tones that count as strained: nervous, uncertain or rushed.
pub open spec fn strained_tone(tone: Seq<char>) -> bool {
    tone == "Nervous"@ || tone == "Uncertain"@ || tone == "Rushed"@
}

fn same(a: &str, b: &str) -> (r: bool)
    ensures
        r == (a@ == b@),
{
    a.to_owned() == b.to_owned()
}

/// Whether a voice tone counts as composed.
pub fn is_composed_tone(tone: &str) -> (r: bool)
    ensures
        r == composed_tone(tone@),
{
    same(tone, "Calm") || same(tone, "Confident") || same(tone, "Clear")
}

/// The feedback colour of a voice tone: green when composed, amber when
/// strained, blue otherwise.
pub fn tone_color_hex(tone: &str) -> (r: &'static str)
    ensures
        r@ == if composed_tone(tone@) {
            "#7ED321"@
        } else if strained_tone(tone@) {
            "#F5A623"@
        } else {
            "#4A90E2"@
        },
{
    if is_composed_tone(tone) {
        "#7ED321"
    } else if same(tone, "Nervous") || same(tone, "Uncertain") || same(tone, "Rushed") {
        "#F5A623"
    } else {
        "#4A90E2"
    }
}

/// The wave amplitude that visualises a voice tone.
pub fn tone_wave_amplitude(tone: &str) -> (r: u8)
    ensures
        r == if tone@ == "Calm"@ {
            3u8
        } else if tone@ == "Confident"@ || tone@ == "Clear"@ {
            5u8
        } else if tone@ == "Excited"@ || tone@ == "Energetic"@ {
            8u8
        } else {
            4u8
        },
{
    if same(tone, "Calm") {
        3
    } else if same(tone, "Confident") || same(tone, "Clear") {
        5
    } else if same(tone, "Excited") || same(tone, "Energetic") {
        8
    } else {
        4
    }
}

} // verus!
