use vstd::prelude::*;
use std::time::{Duration, SystemTime, SystemTimeError};

use crate::category::TokenCategory;
use crate::text::{hex_fixed, hex_string};

verus! {

#[verifier::external_type_specification]
#[verifier::external_body]
pub struct ExSystemTime(SystemTime);

#[verifier::external_type_specification]
#[verifier::external_body]
pub struct ExSystemTimeError(SystemTimeError);

/// Reads the system clock through `SystemTime::now`. Nothing is stated of
/// the reading: it depends on the time.
#[verifier::external_body]
fn clock_now() -> SystemTime {
    SystemTime::now()
}

/// `SystemTime::duration_since(UNIX_EPOCH)`: the time elapsed since the Unix
/// epoch, or an error for a clock set before it. Nothing is stated of the
/// result: the clock reading it starts from is opaque here.
#[verifier::external_body]
fn since_unix_epoch(t: &SystemTime) -> Result<Duration, SystemTimeError> {
    t.duration_since(std::time::UNIX_EPOCH)
}

/// `Duration::as_nanos`: the whole duration in nanoseconds. Nothing is
/// stated of the number: the duration it reads is opaque here.
#[verifier::external_body]
fn duration_nanos(d: &Duration) -> u128 {
    d.as_nanos()
}

/// The identifier's text for a clock reading of `ts` nanoseconds:
/// `xxxxxxxx-xxxx-4xxx-yxxx-xxxxxxxxxxxx` in lower-case hex, every group
/// drawn from bits of `ts`.
pub open spec fn uuid_text(ts: u128) -> Seq<char> {
    let r1 = ((ts >> 32u128) ^ (ts & 0xFFFF_FFFFu128)) & 0xFFFF_FFFFu128;
    let r2 = ((ts >> 16u128) ^ (ts & 0xFFFFu128)) & 0xFFFFu128;
    hex_fixed((ts & 0xFFFF_FFFFu128) as nat, 8) + seq!['-']
        + hex_fixed((r1 >> 16u128) as nat, 4) + seq!['-', '4']
        + hex_fixed((r1 & 0x0FFFu128) as nat, 3) + seq!['-']
        + hex_fixed((0x8000u128 | (r2 & 0x3FFFu128)) as nat, 4) + seq!['-']
        + hex_fixed((ts & 0xFFFF_FFFF_FFFFu128) as nat, 12)
}

/// The identifier built from a clock reading of `ts` nanoseconds.
pub fn uuid_from_nanos(ts: u128) -> (id: String)
    ensures
        id@ == uuid_text(ts),
        id@.len() == 36,
{
    let r1: u128 = ((ts >> 32u128) ^ (ts & 0xFFFF_FFFFu128)) & 0xFFFF_FFFFu128;
    let r2: u128 = ((ts >> 16u128) ^ (ts & 0xFFFFu128)) & 0xFFFFu128;
    proof {
        reveal_strlit("-");
        reveal_strlit("-4");
        lemma_hex_fixed_len((ts & 0xFFFF_FFFFu128) as nat, 8);
        lemma_hex_fixed_len((r1 >> 16u128) as nat, 4);
        lemma_hex_fixed_len((r1 & 0x0FFFu128) as nat, 3);
        lemma_hex_fixed_len((0x8000u128 | (r2 & 0x3FFFu128)) as nat, 4);
        lemma_hex_fixed_len((ts & 0xFFFF_FFFF_FFFFu128) as nat, 12);
    }
    let mut id = hex_string(ts & 0xFFFF_FFFFu128, 8);
    id.append("-");
    id.append(hex_string(r1 >> 16u128, 4).as_str());
    id.append("-4");
    id.append(hex_string(r1 & 0x0FFFu128, 3).as_str());
    id.append("-");
    id.append(hex_string(0x8000u128 | (r2 & 0x3FFFu128), 4).as_str());
    id.append("-");
    id.append(hex_string(ts & 0xFFFF_FFFF_FFFFu128, 12).as_str());
    id
}

/// `hex_fixed` always has exactly `w` characters.
pub proof fn lemma_hex_fixed_len(v: nat, w: nat)
    ensures
        hex_fixed(v, w).len() == w,
    decreases w,
{
    if w > 0 {
        lemma_hex_fixed_len(v / 16, (w - 1) as nat);
    }
}

/// A fresh identifier in UUID v4 layout, drawn from the current time. What
/// holds of every reading: it is the identifier of some clock reading.
pub fn uuid_v4() -> (id: String)
    ensures
        exists|ts: u128| id@ == uuid_text(ts),
        id@.len() == 36,
{
    let now = clock_now();
    let ts: u128 = match since_unix_epoch(&now) {
        Ok(d) => duration_nanos(&d),
        Err(_) => 0,
    };
    let id = uuid_from_nanos(ts);
    assert(id@ == uuid_text(ts));
    id
}

/// A record of token usage.
#[derive(Debug, Clone)]
pub struct TokenTransaction {
    pub id: String,
    pub tick: u64,
    pub tokens: u64,
    pub category: TokenCategory,
    pub description: String,
}

impl TokenTransaction {
    /// A record of `tokens` spent in `category` at `tick`, with a fresh identifier.
    pub fn new(tokens: u64, category: TokenCategory, description: &str, tick: u64) -> (tx: Self)
        ensures
            tx.tokens == tokens,
            tx.category == category,
            tx.description@ == description@,
            tx.tick == tick,
            exists|ts: u128| tx.id@ == uuid_text(ts),
            tx.id@.len() == 36,
    {
        let id = uuid_v4();
        TokenTransaction { id, tick, tokens, category, description: description.to_owned() }
    }
}

} // verus!
