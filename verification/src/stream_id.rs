//! Entry identifiers of a stream, `<millisecond timestamp>-<sequence>`, and
//! the idle time of a producer that is derived from one.

use vstd::prelude::*;
use crate::decimal::{parse_decimal, read_decimal};
use crate::text::{chars_of, free_of, lemma_first_piece, split_on};

verus! {

/// An entry identifier whose leading part is no number of milliseconds.
#[derive(Debug, Clone, PartialEq, Eq)]
pub struct ParseError {
    /// The identifier as it was given.
    pub id: String,
}

/// The part of an identifier before its first hyphen; the whole identifier
/// where it has none.
pub open spec fn leading_part(id: Seq<char>) -> Seq<char> {
    split_on(id, '-')[0]
}

/// A leading part without the one plus sign that may stand in front of it.
pub open spec fn unsigned_part(part: Seq<char>) -> Seq<char> {
    if part.len() > 0 && part[0] == '+' {
        part.skip(1)
    } else {
        part
    }
}

/// The millisecond timestamp that an identifier begins with: its leading
/// part, read as a decimal number that fits 128 bits. `None` where the
/// leading part is no such number.
pub open spec fn timestamp_of(id: Seq<char>) -> Option<nat> {
    match parse_decimal(unsigned_part(leading_part(id))) {
        Some(n) => if n <= u128::MAX {
            Some(n)
        } else {
            None
        },
        None => None,
    }
}

/// The identifier `0-0`, which a stream reports as its last generated one
/// as long as nothing was ever written to it.
pub open spec fn never_written(id: Seq<char>) -> bool {
    id == seq!['0', '-', '0']
}

/// Whole seconds from `timestamp_ms` to `now_ms`, both in milliseconds;
/// zero where the timestamp lies ahead of now.
pub open spec fn idle_seconds(now_ms: nat, timestamp_ms: nat) -> nat {
    if timestamp_ms <= now_ms {
        ((now_ms - timestamp_ms) / 1000) as nat
    } else {
        0
    }
}

/// The idle time of a stream's producer at `now_ms`, from the identifier
/// that the stream generated last. `None` for a stream that was never
/// written to: nothing was produced, so no idle time is given.
pub open spec fn producer_idle(last_generated_id: Seq<char>, now_ms: nat) -> Option<nat>
    recommends
        timestamp_of(last_generated_id) is Some,
{
    if never_written(last_generated_id) {
        None
    } else {
        Some(idle_seconds(now_ms, timestamp_of(last_generated_id).unwrap()))
    }
}

/// Reads the millisecond timestamp that `id` begins with.
pub fn leading_timestamp(id: &str) -> (timestamp: Result<u128, ParseError>)
    ensures
        match timestamp_of(id@) {
            Some(n) => timestamp == Ok::<u128, ParseError>(n as u128),
            None => timestamp is Err && timestamp->Err_0.id@ == id@,
        },
{
    let chars = chars_of(id);
    let n: usize = chars.len();
    let mut digits: Vec<char> = Vec::new();
    let mut i: usize = 0;
    assert(id@.take(0) =~= Seq::<char>::empty());
    while i < n && chars[i] != '-'
        invariant
            n == id@.len(),
            chars@ == id@,
            0 <= i <= n,
            free_of(id@.take(i as int), '-'),
            digits@ == unsigned_part(id@.take(i as int)),
        decreases n - i,
    {
        let c: char = chars[i];
        if !(i == 0 && c == '+') {
            digits.push(c);
        }
        proof {
            let before = id@.take(i as int);
            let after = id@.take(i + 1);
            assert(after =~= before.push(c));
            assert(digits@ =~= unsigned_part(after));
        }
        i = i + 1;
    }
    proof {
        lemma_first_piece(id@, '-', i as int);
    }
    match read_decimal(&digits) {
        Some(value) => Ok(value),
        None => Err(ParseError { id: String::from_str(id) }),
    }
}

/// Whether `id` is the identifier of a stream that was never written to.
pub fn is_never_written(id: &str) -> (yes: bool)
    ensures
        yes == never_written(id@),
{
    let chars = chars_of(id);
    let yes = chars.len() == 3 && chars[0] == '0' && chars[1] == '-' && chars[2] == '0';
    proof {
        if yes {
            assert(id@ =~= seq!['0', '-', '0']);
        }
    }
    yes
}

/// Whole seconds from `timestamp_ms` to `now_ms`; zero where the timestamp
/// lies ahead of now.
pub fn producer_idle_seconds(now_ms: u128, timestamp_ms: u128) -> (seconds: u128)
    ensures
        seconds == idle_seconds(now_ms as nat, timestamp_ms as nat),
{
    if timestamp_ms <= now_ms {
        (now_ms - timestamp_ms) / 1000
    } else {
        0
    }
}

/// The idle time of a stream's producer at `now_ms`, from the identifier
/// that the stream generated last: `Ok(None)` for a stream that was never
/// written to, an error where the identifier begins with no timestamp.
pub fn producer_idle_at(last_generated_id: &str, now_ms: u128) -> (idle: Result<
    Option<u128>,
    ParseError,
>)
    ensures
        match timestamp_of(last_generated_id@) {
            Some(_) => idle is Ok && match producer_idle(last_generated_id@, now_ms as nat) {
                Some(seconds) => idle->Ok_0 == Some(seconds as u128),
                None => idle->Ok_0 is None,
            },
            None => idle is Err && idle->Err_0.id@ == last_generated_id@,
        },
{
    match leading_timestamp(last_generated_id) {
        Ok(timestamp_ms) => {
            if is_never_written(last_generated_id) {
                Ok(None)
            } else {
                Ok(Some(producer_idle_seconds(now_ms, timestamp_ms)))
            }
        },
        Err(error) => Err(error),
    }
}

} // verus!
