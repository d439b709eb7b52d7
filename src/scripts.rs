//! Practice scripts: their steps and answers.

use vstd::prelude::*;

verus! {

#[derive(Debug, Clone, Copy, PartialEq, Eq, Structural)]
pub enum StepType {
    Listen,
    SpeakCheck,
    Contrast,
    ApplyToLife,
}

/// An answer: plain text, or text with a correctness mark and an explanation.
#[derive(Debug, Clone)]
pub enum Answer {
    Simple(String),
    Rich { text: String, correct: bool, explanation: Option<String> },
}

impl Answer {
    pub fn text(&self) -> (r: &str)
        ensures
            r@ == match self {
                Answer::Simple(s) => s@,
                Answer::Rich { text, .. } => text@,
            },
    {
        match self {
            Answer::Simple(s) => s.as_str(),
            Answer::Rich { text, .. } => text.as_str(),
        }
    }

    /// Only a rich answer can be marked correct.
    pub fn is_correct(&self) -> (r: bool)
        ensures
            r == match self {
                Answer::Simple(_) => false,
                Answer::Rich { correct, .. } => *correct,
            },
    {
        match self {
            Answer::Simple(_) => false,
            Answer::Rich { correct, .. } => *correct,
        }
    }

    pub fn explanation(&self) -> (r: Option<&str>)
        ensures
            match self {
                Answer::Simple(_) => r is None,
                Answer::Rich { explanation, .. } => match explanation {
                    Some(e) => r matches Some(x) && x@ == e@,
                    None => r is None,
                },
            },
    {
        match self {
            Answer::Simple(_) => None,
            Answer::Rich { explanation, .. } => match explanation {
                Some(e) => Some(e.as_str()),
                None => None,
            },
        }
    }
}

/// One step of a script.
#[derive(Debug, Clone)]
pub struct Step {
    pub step_type: StepType,
    pub prompt: String,
    pub content: Option<String>,
    pub ref_text: Option<String>,
    pub question: Option<String>,
    pub answers: Option<Vec<Answer>>,
    pub hints: Option<Vec<String>>,
}

/// Shortest delay before a rehearsal ping, in seconds.
pub fn default_ping_min() -> (r: u32)
    ensures
        r == 90,
{
    90
}

/// Longest delay before a rehearsal ping, in seconds.
pub fn default_ping_max() -> (r: u32)
    ensures
        r == 3600,
{
    3600
}

} // verus!
