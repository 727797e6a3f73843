//! Entity model: events, questions, the failure taxonomy, and the pure
//! transitions (vote counting, flag toggling, property parsing) that both
//! storage adapters share.

use vstd::prelude::*;

verus! {

/// A Q&A session. The secret is disclosed once, at creation, and compared
/// byte for byte thereafter; it gates every moderation action.
#[derive(Debug, PartialEq, Eq)]
pub struct Event {
    pub id: u128,
    pub secret: String,
}

/// A question submitted under an event, subject to voting and moderation.
#[derive(Debug, PartialEq, Eq)]
pub struct Question {
    pub id: u128,
    pub event_id: u128,
    pub text: String,
    pub votes: u64,
    pub hidden: bool,
    pub answered: bool,
    pub created: u64,
}

impl Question {
    /// An exact copy of the record, field by field.
    pub fn duplicate(&self) -> (r: Question)
        ensures
            r == *self,
    {
        Question {
            id: self.id,
            event_id: self.event_id,
            text: self.text.clone(),
            votes: self.votes,
            hidden: self.hidden,
            answered: self.answered,
            created: self.created,
        }
    }
}

/// Direction of a vote on a question.
#[derive(Clone, Copy, PartialEq, Eq, Structural, Debug)]
pub enum VoteDirection {
    Up,
    Down,
}

/// One of the two boolean moderation flags of a question.
#[derive(Clone, Copy, PartialEq, Eq, Structural, Debug)]
pub enum ToggleProperty {
    Hidden,
    Answered,
}

/// Outcome of the authorization gate.
#[derive(Clone, Copy, PartialEq, Eq, Structural, Debug)]
pub enum Access {
    Authorized,
    Forbidden,
}

/// Failure taxonomy of the storage abstraction. Every operation returns one
/// of these rather than raising; adapters translate backend failures into
/// them and never recover silently.
#[derive(Clone, Copy, PartialEq, Eq, Structural, Debug)]
pub enum StoreError {
    /// The referenced event or question does not exist.
    NotFound,
    /// The supplied secret does not match the event's stored secret.
    Forbidden,
    /// A toggle was requested on a property name outside hidden / answered.
    InvalidProperty,
    /// The backing store could not be reached or behaved unexpectedly; the
    /// only kind that maps to a server fault rather than a client fault.
    StoreUnavailable,
}

/// One step of the vote counter: up adds one, down subtracts one, clamped
/// so the counter never goes below zero nor wraps at the machine limit.
pub open spec fn vote_step(votes: u64, dir: VoteDirection) -> u64 {
    match dir {
        VoteDirection::Up => if votes < u64::MAX {
            (votes + 1) as u64
        } else {
            votes
        },
        VoteDirection::Down => if votes > 0 {
            (votes - 1) as u64
        } else {
            0u64
        },
    }
}

/// Apply one vote to a counter.
pub fn apply_vote(votes: u64, dir: VoteDirection) -> (r: u64)
    ensures
        r == vote_step(votes, dir),
{
    match dir {
        VoteDirection::Up => if votes < u64::MAX {
            votes + 1
        } else {
            votes
        },
        VoteDirection::Down => if votes > 0 {
            votes - 1
        } else {
            0
        },
    }
}

/// The counter after `n` up votes, each applied as one `vote_step`.
pub open spec fn upvotes(v: u64, n: nat) -> u64
    decreases n,
{
    if n == 0 {
        v
    } else {
        vote_step(upvotes(v, (n - 1) as nat), VoteDirection::Up)
    }
}

/// The question with its vote counter replaced.
pub open spec fn with_votes(q: Question, n: u64) -> Question {
    Question { votes: n, ..q }
}

/// The question with one moderation flag replaced.
pub open spec fn with_flag(q: Question, prop: ToggleProperty, b: bool) -> Question {
    match prop {
        ToggleProperty::Hidden => Question { hidden: b, ..q },
        ToggleProperty::Answered => Question { answered: b, ..q },
    }
}

/// The current value of one moderation flag.
pub open spec fn flag_of(q: Question, prop: ToggleProperty) -> bool {
    match prop {
        ToggleProperty::Hidden => q.hidden,
        ToggleProperty::Answered => q.answered,
    }
}

/// Which property a caller-supplied name denotes, if any.
pub open spec fn spec_parse_property(name: Seq<char>) -> Option<ToggleProperty> {
    if name == "hidden"@ {
        Some(ToggleProperty::Hidden)
    } else if name == "answered"@ {
        Some(ToggleProperty::Answered)
    } else {
        None
    }
}

/// Resolve a caller-supplied property name; anything outside
/// hidden / answered is rejected by the caller with `InvalidProperty`.
pub fn parse_property(name: &String) -> (r: Option<ToggleProperty>)
    ensures
        r == spec_parse_property(name@),
{
    let hidden: String = "hidden".to_owned();
    if *name == hidden {
        return Some(ToggleProperty::Hidden);
    }
    let answered: String = "answered".to_owned();
    if *name == answered {
        Some(ToggleProperty::Answered)
    } else {
        None
    }
}

} // verus!
