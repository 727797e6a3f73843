//! In-process storage adapter: a plain store of events and questions with
//! the same observable semantics as the remote adapter. The surrounding
//! runtime serializes access to it (one guard held for each whole
//! operation), so each method here describes one atomic step.

use vstd::prelude::*;

use crate::model::{Access, Event, Question, StoreError, ToggleProperty, VoteDirection};
use crate::model::{flag_of, spec_parse_property, vote_step, with_flag, with_votes};
use crate::model::{apply_vote, parse_property};
use crate::sources::{fresh_id, fresh_secret, now_seconds};

verus! {

/// The in-process store: every entity the backend owns, in insertion order.
pub struct LocalStore {
    pub events: Vec<Event>,
    pub questions: Vec<Question>,
}

/// One atomic vote step observed between two store states: the question's
/// counter moved by `vote_step` and nothing else changed.
pub open spec fn vote_applied(
    pre: LocalStore,
    post: LocalStore,
    qid: u128,
    dir: VoteDirection,
) -> bool {
    &&& pre.has_question(qid)
    &&& post.questions@ == pre.questions@.update(
        pre.question_index(qid),
        with_votes(pre.question_of(qid), vote_step(pre.question_of(qid).votes, dir)),
    )
    &&& post.events@ == pre.events@
}

/// One atomic toggle step observed between two store states: the named
/// flag flipped and nothing else changed.
pub open spec fn toggle_applied(
    pre: LocalStore,
    post: LocalStore,
    qid: u128,
    prop: ToggleProperty,
) -> bool {
    &&& pre.has_question(qid)
    &&& post.questions@ == pre.questions@.update(
        pre.question_index(qid),
        with_flag(pre.question_of(qid), prop, !flag_of(pre.question_of(qid), prop)),
    )
    &&& post.events@ == pre.events@
}

/// The questions of one event, in insertion order, every flag regardless.
pub open spec fn questions_for(s: Seq<Question>, eid: u128) -> Seq<Question>
    decreases s.len(),
{
    if s.len() == 0 {
        Seq::empty()
    } else {
        questions_for(s.drop_last(), eid) + (if s.last().event_id == eid {
            seq![s.last()]
        } else {
            Seq::empty()
        })
    }
}

/// The questions of one event that are not hidden, in insertion order.
pub open spec fn visible_for(s: Seq<Question>, eid: u128) -> Seq<Question>
    decreases s.len(),
{
    if s.len() == 0 {
        Seq::empty()
    } else {
        visible_for(s.drop_last(), eid) + (if s.last().event_id == eid && !s.last().hidden {
            seq![s.last()]
        } else {
            Seq::empty()
        })
    }
}

/// No two events share an identifier.
pub open spec fn distinct_event_ids(s: Seq<Event>) -> bool {
    forall|i: int, j: int| 0 <= i < j < s.len() ==> s[i].id != s[j].id
}

/// No two questions share an identifier.
pub open spec fn distinct_question_ids(s: Seq<Question>) -> bool {
    forall|i: int, j: int| 0 <= i < j < s.len() ==> s[i].id != s[j].id
}

impl LocalStore {
    /// Well-formedness: identifiers are unique and every question belongs
    /// to an event that exists.
    pub open spec fn wf(self) -> bool {
        &&& distinct_event_ids(self.events@)
        &&& distinct_question_ids(self.questions@)
        &&& forall|i: int|
            0 <= i < self.questions@.len() ==> self.has_event(#[trigger] self.questions@[i].event_id)
    }

    /// Whether an event with this identifier exists.
    pub open spec fn has_event(self, eid: u128) -> bool {
        exists|i: int| 0 <= i < self.events@.len() && self.events@[i].id == eid
    }

    /// Index of the event with this identifier.
    pub open spec fn event_index(self, eid: u128) -> int {
        choose|i: int| 0 <= i < self.events@.len() && self.events@[i].id == eid
    }

    /// The stored secret of an event.
    pub open spec fn secret_of(self, eid: u128) -> Seq<char> {
        self.events@[self.event_index(eid)].secret@
    }

    /// Whether a question with this identifier exists.
    pub open spec fn has_question(self, qid: u128) -> bool {
        exists|i: int| 0 <= i < self.questions@.len() && self.questions@[i].id == qid
    }

    /// Index of the question with this identifier.
    pub open spec fn question_index(self, qid: u128) -> int {
        choose|i: int| 0 <= i < self.questions@.len() && self.questions@[i].id == qid
    }

    /// The stored question record.
    pub open spec fn question_of(self, qid: u128) -> Question {
        self.questions@[self.question_index(qid)]
    }

    /// Under uniqueness, any position holding the identifier is the one
    /// `question_index` denotes.
    pub proof fn lemma_question_index_is(self, qid: u128, k: int)
        requires
            distinct_question_ids(self.questions@),
            0 <= k < self.questions@.len(),
            self.questions@[k].id == qid,
        ensures
            self.has_question(qid),
            self.question_index(qid) == k,
    {
        assert(self.has_question(qid));
        let i = self.question_index(qid);
        assert(0 <= i < self.questions@.len() && self.questions@[i].id == qid);
        if i != k {
            if i < k {
                assert(self.questions@[i].id != self.questions@[k].id);
            } else {
                assert(self.questions@[k].id != self.questions@[i].id);
            }
        }
    }

    /// Under uniqueness, any position holding the identifier is the one
    /// `event_index` denotes.
    pub proof fn lemma_event_index_is(self, eid: u128, k: int)
        requires
            distinct_event_ids(self.events@),
            0 <= k < self.events@.len(),
            self.events@[k].id == eid,
        ensures
            self.has_event(eid),
            self.event_index(eid) == k,
    {
        assert(self.has_event(eid));
        let i = self.event_index(eid);
        assert(0 <= i < self.events@.len() && self.events@[i].id == eid);
        if i != k {
            if i < k {
                assert(self.events@[i].id != self.events@[k].id);
            } else {
                assert(self.events@[k].id != self.events@[i].id);
            }
        }
    }

    /// A store with no entities.
    pub fn new() -> (s: LocalStore)
        ensures
            s.wf(),
            s.events@ =~= Seq::<Event>::empty(),
            s.questions@ =~= Seq::<Question>::empty(),
    {
        LocalStore { events: Vec::new(), questions: Vec::new() }
    }

    /// Position of an event in the store, if present.
    fn find_event(&self, eid: u128) -> (r: Option<usize>)
        ensures
            match r {
                Some(i) => i < self.events@.len() && self.events@[i as int].id == eid,
                None => !self.has_event(eid),
            },
    {
        let n: usize = self.events.len();
        let mut i: usize = 0;
        while i < n
            invariant
                n == self.events@.len(),
                i <= n,
                forall|j: int| 0 <= j < i ==> self.events@[j].id != eid,
            decreases n - i,
        {
            if self.events[i].id == eid {
                return Some(i);
            }
            i = i + 1;
        }
        None
    }

    /// Position of a question in the store, if present.
    fn find_question(&self, qid: u128) -> (r: Option<usize>)
        ensures
            match r {
                Some(i) => i < self.questions@.len() && self.questions@[i as int].id == qid,
                None => !self.has_question(qid),
            },
    {
        let n: usize = self.questions.len();
        let mut i: usize = 0;
        while i < n
            invariant
                n == self.questions@.len(),
                i <= n,
                forall|j: int| 0 <= j < i ==> self.questions@[j].id != qid,
            decreases n - i,
        {
            if self.questions[i].id == qid {
                return Some(i);
            }
            i = i + 1;
        }
        None
    }

    /// Record a new event under a given identifier and secret; refused when
    /// the identifier is already taken.
    pub fn insert_event(&mut self, id: u128, secret: String) -> (r: Result<(), StoreError>)
        requires
            old(self).wf(),
        ensures
            final(self).wf(),
            match r {
                Ok(()) => {
                    &&& !old(self).has_event(id)
                    &&& final(self).events@ == old(self).events@.push(
                        Event { id: id, secret: secret },
                    )
                    &&& final(self).questions@ == old(self).questions@
                    &&& final(self).has_event(id)
                    &&& final(self).secret_of(id) == secret@
                },
                Err(e) => {
                    &&& e == StoreError::StoreUnavailable
                    &&& old(self).has_event(id)
                    &&& *final(self) == *old(self)
                },
            },
    {
        if self.find_event(id).is_some() {
            return Err(StoreError::StoreUnavailable);
        }
        let ghost pre = *self;
        self.events.push(Event { id: id, secret: secret });
        proof {
            let n = pre.events@.len() as int;
            assert(self.events@ == pre.events@.push(self.events@[n]));
            assert forall|i: int, j: int| 0 <= i < j < self.events@.len() implies self.events@[i].id
                != self.events@[j].id by {
                if j < n {
                    assert(pre.events@[i].id != pre.events@[j].id);
                } else {
                    assert(self.events@[j].id == id);
                    assert(self.events@[i] == pre.events@[i]);
                    assert(pre.has_event(id) == false);
                }
            }
            assert forall|i: int|
                0 <= i < self.questions@.len() implies self.has_event(
                #[trigger] self.questions@[i].event_id,
            ) by {
                let eid = pre.questions@[i].event_id;
                assert(pre.has_event(eid));
                let k = pre.event_index(eid);
                assert(self.events@[k].id == eid);
            }
            self.lemma_event_index_is(id, n);
        }
        Ok(())
    }

    /// The authorization gate: whether a caller-supplied secret matches the
    /// stored one. Unknown events and mismatched secrets are alike refused;
    /// only the stored secret is consulted, never the rest of the event.
    pub open spec fn check_secret_spec(self, eid: u128, secret: Seq<char>) -> Access {
        if self.has_event(eid) && self.secret_of(eid) == secret {
            Access::Authorized
        } else {
            Access::Forbidden
        }
    }

    /// Record a question exactly as given, as when the store is seeded from
    /// a fixture at startup; refused when its event is unknown or its
    /// identifier is already taken.
    pub fn seed_question(&mut self, q: Question) -> (r: Result<(), StoreError>)
        requires
            old(self).wf(),
        ensures
            final(self).wf(),
            match r {
                Ok(()) => {
                    &&& old(self).has_event(q.event_id)
                    &&& !old(self).has_question(q.id)
                    &&& final(self).questions@ == old(self).questions@.push(q)
                    &&& final(self).events@ == old(self).events@
                    &&& final(self).has_question(q.id)
                    &&& final(self).question_of(q.id) == q
                },
                Err(StoreError::NotFound) => {
                    &&& !old(self).has_event(q.event_id)
                    &&& *final(self) == *old(self)
                },
                Err(StoreError::StoreUnavailable) => {
                    &&& old(self).has_event(q.event_id)
                    &&& old(self).has_question(q.id)
                    &&& *final(self) == *old(self)
                },
                Err(_) => false,
            },
    {
        if self.find_event(q.event_id).is_none() {
            return Err(StoreError::NotFound);
        }
        if self.find_question(q.id).is_some() {
            return Err(StoreError::StoreUnavailable);
        }
        let ghost pre = *self;
        let ghost qid = q.id;
        self.questions.push(q);
        proof {
            let n = pre.questions@.len() as int;
            assert(self.questions@ == pre.questions@.push(self.questions@[n]));
            assert forall|i: int, j: int|
                0 <= i < j < self.questions@.len() implies self.questions@[i].id
                != self.questions@[j].id by {
                if j < n {
                    assert(pre.questions@[i].id != pre.questions@[j].id);
                } else {
                    assert(self.questions@[i] == pre.questions@[i]);
                    assert(pre.has_question(qid) == false);
                }
            }
            assert forall|i: int|
                0 <= i < self.questions@.len() implies self.has_event(
                #[trigger] self.questions@[i].event_id,
            ) by {
                let eid = self.questions@[i].event_id;
                assert(pre.has_event(eid));
                let k = pre.event_index(eid);
                assert(self.events@[k].id == eid);
            }
            self.lemma_question_index_is(qid, n);
        }
        Ok(())
    }

    /// Create a question under a given identifier and timestamp: the
    /// moderation flags start false and the vote counter at zero.
    pub fn ask_with_id(
        &mut self,
        eid: u128,
        qid: u128,
        text: String,
        created: u64,
    ) -> (r: Result<u128, StoreError>)
        requires
            old(self).wf(),
        ensures
            final(self).wf(),
            match r {
                Ok(id) => {
                    &&& id == qid
                    &&& old(self).has_event(eid)
                    &&& !old(self).has_question(qid)
                    &&& final(self).questions@ == old(self).questions@.push(
                        Question {
                            id: qid,
                            event_id: eid,
                            text: text,
                            votes: 0,
                            hidden: false,
                            answered: false,
                            created: created,
                        },
                    )
                    &&& final(self).events@ == old(self).events@
                    &&& final(self).has_question(qid)
                    &&& final(self).question_of(qid).votes == 0
                    &&& final(self).question_of(qid).hidden == false
                    &&& final(self).question_of(qid).answered == false
                },
                Err(StoreError::NotFound) => {
                    &&& !old(self).has_event(eid)
                    &&& *final(self) == *old(self)
                },
                Err(StoreError::StoreUnavailable) => {
                    &&& old(self).has_event(eid)
                    &&& old(self).has_question(qid)
                    &&& *final(self) == *old(self)
                },
                Err(_) => false,
            },
    {
        let q = Question {
            id: qid,
            event_id: eid,
            text: text,
            votes: 0,
            hidden: false,
            answered: false,
            created: created,
        };
        match self.seed_question(q) {
            Ok(()) => Ok(qid),
            Err(e) => Err(e),
        }
    }

    /// Create a question from submitted content: a fresh identifier, the
    /// current time, flags false and the counter at zero. Fails with
    /// `NotFound` exactly when the event is unknown; should the drawn
    /// identifier collide with an existing one, the store is left unchanged
    /// and the collision is surfaced as `StoreUnavailable`.
    pub fn ask(&mut self, eid: u128, text: String) -> (r: Result<u128, StoreError>)
        requires
            old(self).wf(),
        ensures
            final(self).wf(),
            match r {
                Ok(qid) => {
                    &&& old(self).has_event(eid)
                    &&& !old(self).has_question(qid)
                    &&& final(self).events@ == old(self).events@
                    &&& final(self).questions@.len() == old(self).questions@.len() + 1
                    &&& final(self).questions@ == old(self).questions@.push(
                        final(self).questions@.last(),
                    )
                    &&& final(self).questions@.last().id == qid
                    &&& final(self).questions@.last().event_id == eid
                    &&& final(self).questions@.last().text == text
                    &&& final(self).questions@.last().votes == 0
                    &&& final(self).questions@.last().hidden == false
                    &&& final(self).questions@.last().answered == false
                    &&& final(self).has_question(qid)
                    &&& final(self).question_of(qid) == final(self).questions@.last()
                },
                Err(StoreError::NotFound) => {
                    &&& !old(self).has_event(eid)
                    &&& *final(self) == *old(self)
                },
                Err(StoreError::StoreUnavailable) => {
                    &&& old(self).has_event(eid)
                    &&& *final(self) == *old(self)
                },
                Err(_) => false,
            },
    {
        let qid = fresh_id();
        let created = now_seconds();
        self.ask_with_id(eid, qid, text, created)
    }

    /// Create an event: a fresh identifier and a fresh secret, persisted
    /// with no questions, both disclosed to the caller — the only moment
    /// the secret is. Should the drawn identifier collide with an existing
    /// one, the store is left unchanged and `StoreUnavailable` is returned.
    pub fn create_event(&mut self) -> (r: Result<(u128, String), StoreError>)
        requires
            old(self).wf(),
        ensures
            final(self).wf(),
            match r {
                Ok(p) => {
                    &&& !old(self).has_event(p.0)
                    &&& final(self).events@ == old(self).events@.push(
                        Event { id: p.0, secret: p.1 },
                    )
                    &&& final(self).questions@ == old(self).questions@
                    &&& final(self).has_event(p.0)
                    &&& final(self).secret_of(p.0) == p.1@
                    &&& forall|j: int|
                        0 <= j < final(self).questions@.len()
                            ==> #[trigger] final(self).questions@[j].event_id != p.0
                },
                Err(e) => {
                    &&& e == StoreError::StoreUnavailable
                    &&& *final(self) == *old(self)
                },
            },
    {
        let id = fresh_id();
        let secret = fresh_secret();
        let stored = secret.clone();
        let ghost pre = *self;
        match self.insert_event(id, stored) {
            Ok(()) => {
                proof {
                    assert forall|j: int|
                        0 <= j < self.questions@.len() implies #[trigger] self.questions@[j].event_id
                        != id by {
                        assert(pre.has_event(pre.questions@[j].event_id));
                    }
                }
                Ok((id, secret))
            },
            Err(e) => Err(e),
        }
    }

    /// Fetch a copy of a question record.
    pub fn get_question(&self, qid: u128) -> (r: Result<Question, StoreError>)
        requires
            self.wf(),
        ensures
            match r {
                Ok(q) => self.has_question(qid) && q == self.question_of(qid),
                Err(e) => e == StoreError::NotFound && !self.has_question(qid),
            },
    {
        match self.find_question(qid) {
            None => Err(StoreError::NotFound),
            Some(i) => {
                proof {
                    self.lemma_question_index_is(qid, i as int);
                }
                Ok(self.questions[i].duplicate())
            },
        }
    }

    /// Add one vote to a question's counter, up or down, as a single
    /// atomic step; down stops at zero and the new count is returned.
    pub fn vote(&mut self, qid: u128, dir: VoteDirection) -> (r: Result<u64, StoreError>)
        requires
            old(self).wf(),
        ensures
            final(self).wf(),
            match r {
                Ok(n) => {
                    &&& vote_applied(*old(self), *final(self), qid, dir)
                    &&& n == vote_step(old(self).question_of(qid).votes, dir)
                    &&& final(self).has_question(qid)
                    &&& final(self).question_of(qid) == with_votes(old(self).question_of(qid), n)
                },
                Err(e) => {
                    &&& e == StoreError::NotFound
                    &&& !old(self).has_question(qid)
                    &&& *final(self) == *old(self)
                },
            },
    {
        match self.find_question(qid) {
            None => Err(StoreError::NotFound),
            Some(i) => {
                proof {
                    self.lemma_question_index_is(qid, i as int);
                }
                let cur: u64 = self.questions[i].votes;
                let n = apply_vote(cur, dir);
                let mut q = self.questions[i].duplicate();
                q.votes = n;
                let ghost pre = *self;
                self.questions[i] = q;
                proof {
                    self.lemma_update_keeps_wf(pre, i as int);
                    self.lemma_question_index_is(qid, i as int);
                }
                Ok(n)
            },
        }
    }

    /// Flip one moderation flag of a question, as a single atomic step,
    /// and return the new value.
    pub fn toggle(&mut self, qid: u128, prop: ToggleProperty) -> (r: Result<bool, StoreError>)
        requires
            old(self).wf(),
        ensures
            final(self).wf(),
            match r {
                Ok(b) => {
                    &&& toggle_applied(*old(self), *final(self), qid, prop)
                    &&& b == !flag_of(old(self).question_of(qid), prop)
                    &&& final(self).has_question(qid)
                    &&& final(self).question_of(qid) == with_flag(
                        old(self).question_of(qid),
                        prop,
                        b,
                    )
                },
                Err(e) => {
                    &&& e == StoreError::NotFound
                    &&& !old(self).has_question(qid)
                    &&& *final(self) == *old(self)
                },
            },
    {
        match self.find_question(qid) {
            None => Err(StoreError::NotFound),
            Some(i) => {
                proof {
                    self.lemma_question_index_is(qid, i as int);
                }
                let mut q = self.questions[i].duplicate();
                let b: bool = match prop {
                    ToggleProperty::Hidden => {
                        q.hidden = !q.hidden;
                        q.hidden
                    },
                    ToggleProperty::Answered => {
                        q.answered = !q.answered;
                        q.answered
                    },
                };
                let ghost pre = *self;
                self.questions[i] = q;
                proof {
                    self.lemma_update_keeps_wf(pre, i as int);
                    self.lemma_question_index_is(qid, i as int);
                }
                Ok(b)
            },
        }
    }

    /// Flip the moderation flag a caller named; names outside
    /// hidden / answered are refused with `InvalidProperty`.
    pub fn toggle_named(&mut self, qid: u128, name: &String) -> (r: Result<bool, StoreError>)
        requires
            old(self).wf(),
        ensures
            final(self).wf(),
            match spec_parse_property(name@) {
                None => {
                    &&& r == Err::<bool, StoreError>(StoreError::InvalidProperty)
                    &&& *final(self) == *old(self)
                },
                Some(prop) => match r {
                    Ok(b) => {
                        &&& toggle_applied(*old(self), *final(self), qid, prop)
                        &&& b == !flag_of(old(self).question_of(qid), prop)
                    },
                    Err(e) => {
                        &&& e == StoreError::NotFound
                        &&& !old(self).has_question(qid)
                        &&& *final(self) == *old(self)
                    },
                },
            },
    {
        match parse_property(name) {
            None => Err(StoreError::InvalidProperty),
            Some(prop) => self.toggle(qid, prop),
        }
    }

    /// List every question of an event, hidden or not, in insertion
    /// order; for moderators, after the authorization gate has passed.
    pub fn list_all(&self, eid: u128) -> (r: Result<Vec<Question>, StoreError>)
        requires
            self.wf(),
        ensures
            match r {
                Ok(v) => self.has_event(eid) && v@ == questions_for(self.questions@, eid),
                Err(e) => e == StoreError::NotFound && !self.has_event(eid),
            },
    {
        if self.find_event(eid).is_none() {
            return Err(StoreError::NotFound);
        }
        let mut out: Vec<Question> = Vec::new();
        let n: usize = self.questions.len();
        let mut i: usize = 0;
        while i < n
            invariant
                n == self.questions@.len(),
                i <= n,
                out@ == questions_for(self.questions@.take(i as int), eid),
            decreases n - i,
        {
            if self.questions[i].event_id == eid {
                out.push(self.questions[i].duplicate());
            }
            proof {
                assert(self.questions@.take(i + 1).drop_last() =~= self.questions@.take(i as int));
                assert(self.questions@.take(i + 1).last() == self.questions@[i as int]);
                assert(out@ =~= questions_for(self.questions@.take(i + 1), eid));
            }
            i = i + 1;
        }
        proof {
            assert(self.questions@.take(n as int) =~= self.questions@);
        }
        Ok(out)
    }

    /// List the questions of an event that are not hidden, in insertion
    /// order: the attendee view.
    pub fn list_visible(&self, eid: u128) -> (r: Result<Vec<Question>, StoreError>)
        requires
            self.wf(),
        ensures
            match r {
                Ok(v) => self.has_event(eid) && v@ == visible_for(self.questions@, eid),
                Err(e) => e == StoreError::NotFound && !self.has_event(eid),
            },
    {
        if self.find_event(eid).is_none() {
            return Err(StoreError::NotFound);
        }
        let mut out: Vec<Question> = Vec::new();
        let n: usize = self.questions.len();
        let mut i: usize = 0;
        while i < n
            invariant
                n == self.questions@.len(),
                i <= n,
                out@ == visible_for(self.questions@.take(i as int), eid),
            decreases n - i,
        {
            if self.questions[i].event_id == eid && !self.questions[i].hidden {
                out.push(self.questions[i].duplicate());
            }
            proof {
                assert(self.questions@.take(i + 1).drop_last() =~= self.questions@.take(i as int));
                assert(self.questions@.take(i + 1).last() == self.questions@[i as int]);
                assert(out@ =~= visible_for(self.questions@.take(i + 1), eid));
            }
            i = i + 1;
        }
        proof {
            assert(self.questions@.take(n as int) =~= self.questions@);
        }
        Ok(out)
    }

    /// Replacing one question with a record of the same identity keeps the
    /// store well formed.
    proof fn lemma_update_keeps_wf(self, pre: LocalStore, i: int)
        requires
            pre.wf(),
            0 <= i < pre.questions@.len(),
            self.questions@ == pre.questions@.update(
                i,
                self.questions@[i],
            ),
            self.questions@[i].id == pre.questions@[i].id,
            self.questions@[i].event_id == pre.questions@[i].event_id,
            self.events@ == pre.events@,
        ensures
            self.wf(),
    {
        assert forall|a: int, b: int|
            0 <= a < b < self.questions@.len() implies self.questions@[a].id
            != self.questions@[b].id by {
            assert(self.questions@[a].id == pre.questions@[a].id);
            assert(self.questions@[b].id == pre.questions@[b].id);
        }
        assert forall|k: int|
            0 <= k < self.questions@.len() implies self.has_event(
            #[trigger] self.questions@[k].event_id,
        ) by {
            assert(self.questions@[k].event_id == pre.questions@[k].event_id);
            assert(pre.has_event(pre.questions@[k].event_id));
            let w = pre.event_index(pre.questions@[k].event_id);
            assert(self.events@[w].id == self.questions@[k].event_id);
        }
    }

    /// Compare a caller-supplied secret with the stored one.
    pub fn check_secret(&self, eid: u128, secret: &String) -> (r: Access)
        requires
            self.wf(),
        ensures
            r == self.check_secret_spec(eid, secret@),
    {
        match self.find_event(eid) {
            None => Access::Forbidden,
            Some(i) => {
                proof {
                    self.lemma_event_index_is(eid, i as int);
                }
                if self.events[i].secret == *secret {
                    Access::Authorized
                } else {
                    Access::Forbidden
                }
            },
        }
    }
}

} // verus!
