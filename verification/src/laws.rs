//! The laws the storage core stands behind, each proved over the store
//! model that the operations' contracts speak of. Together with those
//! contracts they cover the creation defaults, the authorization gate,
//! vote round trips and the zero floor, toggle involution, visibility,
//! and the accumulation of independent up votes.

use vstd::prelude::*;

use crate::local::{
    distinct_question_ids, questions_for, toggle_applied, visible_for, vote_applied, LocalStore,
};
use crate::model::{upvotes, vote_step, with_flag, with_votes, Access, ToggleProperty, VoteDirection};

verus! {

/// The stored secret of an event authorizes, and only it does: the
/// authorization check answers `Authorized` for it and `Forbidden` for
/// every other value. An
/// event fresh from creation satisfies the premises with the secret that
/// was disclosed to its creator.
pub proof fn lemma_secret_gates(s: LocalStore, eid: u128, secret: Seq<char>, other: Seq<char>)
    requires
        s.has_event(eid),
        s.secret_of(eid) == secret,
    ensures
        s.check_secret_spec(eid, secret) == Access::Authorized,
        other != secret ==> s.check_secret_spec(eid, other) == Access::Forbidden,
{
}

/// An up vote followed by a down vote on the same question restores the
/// whole store, provided the counter stood below the machine limit.
pub proof fn lemma_vote_round_trip(s0: LocalStore, s1: LocalStore, s2: LocalStore, qid: u128)
    requires
        s0.wf(),
        s0.has_question(qid),
        s0.question_of(qid).votes < u64::MAX,
        vote_applied(s0, s1, qid, VoteDirection::Up),
        vote_applied(s1, s2, qid, VoteDirection::Down),
    ensures
        s2.questions@ == s0.questions@,
        s2.events@ == s0.events@,
{
    let i = s0.question_index(qid);
    assert(0 <= i < s0.questions@.len() && s0.questions@[i].id == qid);
    let q0 = s0.question_of(qid);
    let v = q0.votes;
    let q1 = with_votes(q0, vote_step(v, VoteDirection::Up));
    assert(s1.questions@ == s0.questions@.update(i, q1));
    assert forall|a: int, b: int|
        0 <= a < b < s1.questions@.len() implies s1.questions@[a].id != s1.questions@[b].id by {
        assert(s1.questions@[a].id == s0.questions@[a].id);
        assert(s1.questions@[b].id == s0.questions@[b].id);
    }
    assert(distinct_question_ids(s1.questions@));
    s1.lemma_question_index_is(qid, i);
    assert(s1.question_of(qid) == q1);
    let q2 = with_votes(q1, vote_step(q1.votes, VoteDirection::Down));
    assert(s2.questions@ == s1.questions@.update(i, q2));
    assert(q2 == q0);
    assert(s2.questions@ =~= s0.questions@);
}

/// A down vote on a question whose counter stands at zero leaves the
/// whole store as it was: the floor clamps in place of going negative.
pub proof fn lemma_vote_floor(s0: LocalStore, s1: LocalStore, qid: u128)
    requires
        s0.wf(),
        s0.has_question(qid),
        s0.question_of(qid).votes == 0,
        vote_applied(s0, s1, qid, VoteDirection::Down),
    ensures
        s1.questions@ == s0.questions@,
        s1.events@ == s0.events@,
{
    let i = s0.question_index(qid);
    assert(0 <= i < s0.questions@.len() && s0.questions@[i].id == qid);
    let q0 = s0.question_of(qid);
    let q1 = with_votes(q0, vote_step(0, VoteDirection::Down));
    assert(q1 == q0);
    assert(s1.questions@ == s0.questions@.update(i, q1));
    assert(s1.questions@ =~= s0.questions@);
}

/// Toggling the same flag of the same question twice restores the whole
/// store: one toggle is its own inverse.
pub proof fn lemma_toggle_involution(
    s0: LocalStore,
    s1: LocalStore,
    s2: LocalStore,
    qid: u128,
    prop: ToggleProperty,
)
    requires
        s0.wf(),
        s0.has_question(qid),
        toggle_applied(s0, s1, qid, prop),
        toggle_applied(s1, s2, qid, prop),
    ensures
        s2.questions@ == s0.questions@,
        s2.events@ == s0.events@,
{
    let i = s0.question_index(qid);
    assert(0 <= i < s0.questions@.len() && s0.questions@[i].id == qid);
    let q0 = s0.question_of(qid);
    let q1 = with_flag(q0, prop, !crate::model::flag_of(q0, prop));
    assert(s1.questions@ == s0.questions@.update(i, q1));
    assert forall|a: int, b: int|
        0 <= a < b < s1.questions@.len() implies s1.questions@[a].id != s1.questions@[b].id by {
        assert(s1.questions@[a].id == s0.questions@[a].id);
        assert(s1.questions@[b].id == s0.questions@[b].id);
    }
    assert(distinct_question_ids(s1.questions@));
    s1.lemma_question_index_is(qid, i);
    assert(s1.question_of(qid) == q1);
    let q2 = with_flag(q1, prop, !crate::model::flag_of(q1, prop));
    assert(s2.questions@ == s1.questions@.update(i, q2));
    assert(q2 == q0);
    assert(s2.questions@ =~= s0.questions@);
}

/// What the attendee view holds: every entry belongs to the event and
/// none of them is hidden.
pub proof fn lemma_visible_excludes_hidden(s: Seq<crate::model::Question>, eid: u128)
    ensures
        forall|i: int|
            0 <= i < visible_for(s, eid).len() ==> !(#[trigger] visible_for(s, eid)[i]).hidden
                && visible_for(s, eid)[i].event_id == eid,
    decreases s.len(),
{
    if s.len() > 0 {
        lemma_visible_excludes_hidden(s.drop_last(), eid);
        let pre = visible_for(s.drop_last(), eid);
        assert forall|i: int|
            0 <= i < visible_for(s, eid).len() implies !(#[trigger] visible_for(s, eid)[i]).hidden
            && visible_for(s, eid)[i].event_id == eid by {
            if i < pre.len() {
                assert(visible_for(s, eid)[i] == pre[i]);
            } else {
                assert(visible_for(s, eid)[i] == s.last());
            }
        }
    }
}

/// What the moderator view holds: every question of the event appears in
/// it, hidden or not.
pub proof fn lemma_list_all_is_complete(s: Seq<crate::model::Question>, eid: u128, k: int)
    requires
        0 <= k < s.len(),
        s[k].event_id == eid,
    ensures
        questions_for(s, eid).contains(s[k]),
    decreases s.len(),
{
    let pre = questions_for(s.drop_last(), eid);
    if k == s.len() - 1 {
        assert(questions_for(s, eid)[pre.len() as int] == s[k]);
    } else {
        lemma_list_all_is_complete(s.drop_last(), eid, k);
        let j = choose|j: int| 0 <= j < pre.len() && pre[j] == s.drop_last()[k];
        assert(questions_for(s, eid)[j] == pre[j]);
        assert(s.drop_last()[k] == s[k]);
    }
}

/// N independent up votes on one question raise its counter by exactly N:
/// each is one atomic `vote_step`, both adapters serialize the steps (the
/// guard in process, the conditional update in the table), and the steps
/// commute into a plain sum while the machine limit is not reached.
pub proof fn lemma_upvotes_accumulate(v: u64, n: nat)
    requires
        v + n <= u64::MAX,
    ensures
        upvotes(v, n) == v + n,
    decreases n,
{
    if n > 0 {
        lemma_upvotes_accumulate(v, (n - 1) as nat);
    }
}

/// One observed vote step carries well-formedness forward and moves the
/// question's counter by exactly `vote_step`.
pub proof fn lemma_vote_applied_step(s0: LocalStore, s1: LocalStore, qid: u128, dir: VoteDirection)
    requires
        s0.wf(),
        vote_applied(s0, s1, qid, dir),
    ensures
        s1.wf(),
        s1.has_question(qid),
        s1.question_of(qid).votes == vote_step(s0.question_of(qid).votes, dir),
{
    let i = s0.question_index(qid);
    assert(0 <= i < s0.questions@.len() && s0.questions@[i].id == qid);
    assert forall|a: int, b: int|
        0 <= a < b < s1.questions@.len() implies s1.questions@[a].id != s1.questions@[b].id by {
        assert(s1.questions@[a].id == s0.questions@[a].id);
        assert(s1.questions@[b].id == s0.questions@[b].id);
    }
    assert forall|k: int|
        0 <= k < s1.questions@.len() implies s1.has_event(
        #[trigger] s1.questions@[k].event_id,
    ) by {
        assert(s1.questions@[k].event_id == s0.questions@[k].event_id);
        assert(s0.has_event(s0.questions@[k].event_id));
        let w = s0.event_index(s0.questions@[k].event_id);
        assert(s1.events@[w].id == s1.questions@[k].event_id);
    }
    s1.lemma_question_index_is(qid, i);
}

/// Whether a run of store states is one up vote after another on the same
/// question: each neighbouring pair is one observed vote step.
pub open spec fn upvote_run(stores: Seq<LocalStore>, qid: u128) -> bool {
    forall|i: int|
        0 <= i < stores.len() - 1 ==> vote_applied(
            #[trigger] stores[i],
            stores[i + 1],
            qid,
            VoteDirection::Up,
        )
}

/// However N concurrent up votes on one question interleave, both
/// adapters apply them one atomic step at a time, so the observed history
/// is some run of N steps — and every such run raises the question's
/// counter by exactly N, none lost, while the machine limit is not
/// reached.
pub proof fn lemma_upvote_run_accumulates(stores: Seq<LocalStore>, qid: u128)
    requires
        stores.len() >= 1,
        stores[0].wf(),
        stores[0].has_question(qid),
        upvote_run(stores, qid),
        stores[0].question_of(qid).votes + stores.len() - 1 <= u64::MAX,
    ensures
        stores.last().wf(),
        stores.last().has_question(qid),
        stores.last().question_of(qid).votes == stores[0].question_of(qid).votes + stores.len()
            - 1,
    decreases stores.len(),
{
    if stores.len() > 1 {
        lemma_vote_applied_step(stores[0], stores[1], qid, VoteDirection::Up);
        let rest = stores.drop_first();
        assert forall|i: int|
            0 <= i < rest.len() - 1 implies vote_applied(
            #[trigger] rest[i],
            rest[i + 1],
            qid,
            VoteDirection::Up,
        ) by {
            assert(rest[i] == stores[i + 1]);
            assert(rest[i + 1] == stores[i + 2]);
        }
        lemma_upvote_run_accumulates(rest, qid);
        assert(rest.last() == stores.last());
    }
}

} // verus!
