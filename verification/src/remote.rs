//! Pure logic of the remote storage adapter. The adapter keeps the two
//! logical tables in a managed key-value store and leans on its
//! conditional, atomic updates; the network calls themselves happen in
//! the surrounding runtime, which hands this module the plain values a
//! reply carried and takes back the abstraction's verdict. Counters
//! travel through that store as decimal text, so their encoding and
//! decoding is proved here as well.

use vstd::prelude::*;

use crate::model::{Access, Question, StoreError};

verus! {

/// What a projected read of an event's secret field came back with:
/// the transport failed, the event was absent, or the stored secret.
pub enum SecretFetch {
    Unreachable,
    Missing,
    Found(String),
}

/// The authorization verdict on one secret-read outcome: a found, matching
/// secret authorizes; a missing record or a mismatch is refused; only a
/// transport failure is surfaced as the store being unavailable.
pub open spec fn secret_fetch_verdict(outcome: SecretFetch, supplied: Seq<char>) -> Result<
    Access,
    StoreError,
> {
    match outcome {
        SecretFetch::Unreachable => Err(StoreError::StoreUnavailable),
        SecretFetch::Missing => Ok(Access::Forbidden),
        SecretFetch::Found(stored) => if stored@ == supplied {
            Ok(Access::Authorized)
        } else {
            Ok(Access::Forbidden)
        },
    }
}

/// Decide the authorization check from what the remote read came back
/// with: a successful call with no matching record is a refusal, not a
/// store failure.
pub fn interpret_secret_fetch(outcome: SecretFetch, supplied: &String) -> (r: Result<
    Access,
    StoreError,
>)
    ensures
        r == secret_fetch_verdict(outcome, supplied@),
{
    match outcome {
        SecretFetch::Unreachable => Err(StoreError::StoreUnavailable),
        SecretFetch::Missing => Ok(Access::Forbidden),
        SecretFetch::Found(stored) => if stored == *supplied {
            Ok(Access::Authorized)
        } else {
            Ok(Access::Forbidden)
        },
    }
}

/// An ASCII decimal digit.
pub open spec fn is_digit(b: u8) -> bool {
    48 <= b <= 57
}

/// Nothing but ASCII decimal digits.
pub open spec fn all_digits(s: Seq<u8>) -> bool {
    forall|i: int| 0 <= i < s.len() ==> is_digit(#[trigger] s[i])
}

/// The number a run of decimal digits denotes, most significant first.
pub open spec fn dec_value(s: Seq<u8>) -> int
    decreases s.len(),
{
    if s.len() == 0 {
        0
    } else {
        dec_value(s.drop_last()) * 10 + (s.last() - 48)
    }
}

/// A digit run denotes nothing negative.
pub proof fn lemma_dec_value_nonneg(s: Seq<u8>)
    requires
        all_digits(s),
    ensures
        dec_value(s) >= 0,
    decreases s.len(),
{
    if s.len() > 0 {
        assert(all_digits(s.drop_last()));
        lemma_dec_value_nonneg(s.drop_last());
    }
}

/// Extending a digit run can only grow the number it denotes.
pub proof fn lemma_dec_value_prefix(s: Seq<u8>, k: int)
    requires
        all_digits(s),
        0 <= k <= s.len(),
    ensures
        dec_value(s) >= dec_value(s.take(k)),
    decreases s.len() - k,
{
    if k < s.len() {
        lemma_dec_value_prefix(s, k + 1);
        assert(s.take(k + 1).drop_last() =~= s.take(k));
        assert(all_digits(s.take(k)));
        lemma_dec_value_nonneg(s.take(k));
    } else {
        assert(s.take(k) =~= s);
    }
}

/// Read a counter from its decimal text form: the digits' value exactly,
/// refused when the text is empty, holds a non-digit, or denotes a number
/// beyond the machine limit.
pub fn parse_u64_decimal(s: &Vec<u8>) -> (r: Option<u64>)
    ensures
        match r {
            Some(v) => s@.len() > 0 && all_digits(s@) && v == dec_value(s@),
            None => s@.len() == 0 || !all_digits(s@) || dec_value(s@) > u64::MAX,
        },
{
    let n: usize = s.len();
    if n == 0 {
        return None;
    }
    let mut i: usize = 0;
    let mut val: u64 = 0;
    while i < n
        invariant
            n == s@.len(),
            i <= n,
            all_digits(s@.take(i as int)),
            val == dec_value(s@.take(i as int)),
        decreases n - i,
    {
        let b = s[i];
        if b < 48 || b > 57 {
            return None;
        }
        let d: u64 = (b - 48) as u64;
        proof {
            assert(s@.take(i + 1).drop_last() =~= s@.take(i as int));
            assert(s@.take(i + 1).last() == s@[i as int]);
        }
        let prod = val.checked_mul(10);
        if prod.is_none() {
            proof {
                if all_digits(s@) {
                    lemma_dec_value_prefix(s@, i + 1);
                }
            }
            return None;
        }
        let sum = prod.unwrap().checked_add(d);
        if sum.is_none() {
            proof {
                if all_digits(s@) {
                    lemma_dec_value_prefix(s@, i + 1);
                }
            }
            return None;
        }
        val = sum.unwrap();
        i = i + 1;
    }
    proof {
        assert(s@.take(n as int) =~= s@);
    }
    Some(val)
}

/// The decimal digit run of a number, most significant first and without
/// a leading zero (a lone zero for zero).
pub open spec fn dec_digits(v: int) -> Seq<u8>
    decreases v,
{
    if v <= 0 {
        seq![48u8]
    } else if v < 10 {
        seq![(48 + v) as u8]
    } else {
        dec_digits(v / 10) + seq![(48 + v % 10) as u8]
    }
}

/// The digit run of a number denotes that number back, holds digits
/// alone, and never starts with a superfluous zero.
pub proof fn lemma_dec_digits_value(v: int)
    requires
        v >= 0,
    ensures
        all_digits(dec_digits(v)),
        dec_value(dec_digits(v)) == v,
        dec_digits(v).len() >= 1,
        dec_digits(v).len() > 1 ==> dec_digits(v)[0] != 48,
    decreases v,
{
    if v >= 10 {
        lemma_dec_digits_value(v / 10);
        let pre = dec_digits(v / 10);
        let whole = dec_digits(v);
        assert(whole == pre + seq![(48 + v % 10) as u8]);
        assert(whole.drop_last() =~= pre);
        assert(whole.last() == (48 + v % 10) as u8);
        assert(0 <= v % 10 < 10);
        vstd::arithmetic::div_mod::lemma_fundamental_div_mod(v, 10);
        assert(dec_value(whole.drop_last()) == dec_value(pre));
        assert(dec_value(pre) == v / 10);
        assert(whole.last() - 48 == v % 10);
        assert(dec_value(whole) == dec_value(pre) * 10 + (v % 10));
        assert(dec_value(whole) == v);
        assert(whole[0] == pre[0]);
        assert(v / 10 >= 1);
        if v / 10 < 10 {
            assert(pre == seq![(48 + v / 10) as u8]);
            assert(pre[0] != 48);
        } else {
            assert(pre == dec_digits(v / 100) + seq![(48 + (v / 10) % 10) as u8]);
            assert(dec_digits(v / 100).len() >= 1);
            assert(pre.len() > 1);
        }
    } else {
        let s = dec_digits(v);
        assert(s.len() == 1);
        assert(s.drop_last() =~= Seq::<u8>::empty());
        assert(dec_value(s.drop_last()) == 0);
        assert(dec_value(s) == s.last() - 48);
        assert(dec_value(s) == v);
    }
}

/// Append a number's decimal digits, most significant first.
fn push_decimal(v: u64, out: &mut Vec<u8>)
    ensures
        final(out)@ == old(out)@ + dec_digits(v as int),
    decreases v,
{
    let ghost pre = out@;
    if v >= 10 {
        push_decimal(v / 10, out);
        out.push((v % 10) as u8 + 48);
        proof {
            assert(out@ =~= pre + dec_digits(v as int));
        }
    } else {
        out.push(v as u8 + 48);
        proof {
            assert(out@ =~= pre + dec_digits(v as int));
        }
    }
}

/// Write a counter in the decimal text form the remote tables hold:
/// digits alone, at least one, no superfluous leading zero, denoting the
/// counter exactly.
pub fn format_u64_decimal(v: u64) -> (r: Vec<u8>)
    ensures
        r@ == dec_digits(v as int),
        all_digits(r@),
        dec_value(r@) == v,
        r@.len() >= 1,
        r@.len() > 1 ==> r@[0] != 48,
{
    let mut out: Vec<u8> = Vec::new();
    push_decimal(v, &mut out);
    proof {
        lemma_dec_digits_value(v as int);
        assert(out@ =~= dec_digits(v as int));
    }
    out
}

/// Decode one question record from the plain fields a remote read of the
/// questions table carried. The counters arrive as decimal text; a field
/// that does not decode marks the reply as malformed, which is surfaced
/// as the store being unavailable.
pub fn question_from_record(
    qid: u128,
    eid: u128,
    text: String,
    votes_text: &Vec<u8>,
    hidden: bool,
    answered: bool,
    created_text: &Vec<u8>,
) -> (r: Result<Question, StoreError>)
    ensures
        match r {
            Ok(q) => {
                &&& q.id == qid
                &&& q.event_id == eid
                &&& q.text == text
                &&& q.hidden == hidden
                &&& q.answered == answered
                &&& all_digits(votes_text@) && votes_text@.len() > 0 && q.votes == dec_value(
                    votes_text@,
                )
                &&& all_digits(created_text@) && created_text@.len() > 0 && q.created == dec_value(
                    created_text@,
                )
            },
            Err(e) => {
                &&& e == StoreError::StoreUnavailable
                &&& {
                    ||| votes_text@.len() == 0
                    ||| !all_digits(votes_text@)
                    ||| dec_value(votes_text@) > u64::MAX
                    ||| created_text@.len() == 0
                    ||| !all_digits(created_text@)
                    ||| dec_value(created_text@) > u64::MAX
                }
            },
        },
{
    let votes = match parse_u64_decimal(votes_text) {
        Some(v) => v,
        None => {
            return Err(StoreError::StoreUnavailable);
        },
    };
    let created = match parse_u64_decimal(created_text) {
        Some(v) => v,
        None => {
            return Err(StoreError::StoreUnavailable);
        },
    };
    Ok(
        Question {
            id: qid,
            event_id: eid,
            text: text,
            votes: votes,
            hidden: hidden,
            answered: answered,
            created: created,
        },
    )
}

} // verus!
