//! The probe record as it travels: a small JSON object that carries the
//! probe's sequence id under `tick` and, under `timestamp`, the microseconds
//! since the session began when it was sent.
//!
//! ```text
//! {"tick":42,"timestamp":350000}
//! ```
//!
//! Writing the record is done here, byte by byte. Reading it back is left to
//! `serde_json`, so that any JSON spelling of the record is understood the
//! way that parser understands it.

use vstd::prelude::*;

verus! {

/// The bytes `{"tick":` that open a record.
pub open spec fn tick_prefix() -> Seq<u8> {
    seq![123u8, 34u8, 116u8, 105u8, 99u8, 107u8, 34u8, 58u8]
}

/// The bytes `,"timestamp":` between the two numbers.
pub open spec fn stamp_prefix() -> Seq<u8> {
    seq![
        44u8,
        34u8,
        116u8,
        105u8,
        109u8,
        101u8,
        115u8,
        116u8,
        97u8,
        109u8,
        112u8,
        34u8,
        58u8,
    ]
}

/// The byte `}` that closes a record.
pub open spec fn record_suffix() -> Seq<u8> {
    seq![125u8]
}

/// ASCII decimal digits of `n`, most significant first, without leading
/// zeros (`0` itself is the one digit `0`).
pub open spec fn decimal(n: nat) -> Seq<u8>
    decreases n,
{
    if n < 10 {
        seq![(48 + n) as u8]
    } else {
        decimal(n / 10).push((48 + n % 10) as u8)
    }
}

/// The record of the probe with sequence id `sequence_id`, sent
/// `origin_micros` microseconds into its session.
pub open spec fn probe_text(sequence_id: u64, origin_micros: u64) -> Seq<u8> {
    tick_prefix() + decimal(sequence_id as nat) + stamp_prefix() + decimal(origin_micros as nat)
        + record_suffix()
}

/// The unsigned integer that `serde_json` finds under `key` in the JSON
/// object `text`, if there is one.
pub uninterp spec fn json_u64_member(text: Seq<u8>, key: Seq<char>) -> Option<u64>;

/// The sequence id a received record carries, if it carries one.
pub open spec fn sequence_id_in(payload: Seq<u8>) -> Option<u64> {
    json_u64_member(payload, "tick"@)
}

/// Parses `text` with `serde_json::from_slice` into a `serde_json::Value`,
/// looks `key` up with `Value::get` and reads the member with
/// `Value::as_u64`.
///
/// Not verified: the contract only gives the outcome a name. The outcome is
/// `None` when the text is not JSON, when it has no member `key`, and when
/// that member is not an integer from 0 to `u64::MAX`; it depends on the two
/// arguments alone.
#[verifier::external_body]
fn read_u64_member(text: &[u8], key: &str) -> (found: Option<u64>)
    ensures
        found == json_u64_member(text@, key@),
{
    match serde_json::from_slice::<serde_json::Value>(text) {
        Ok(value) => match value.get(key) {
            Some(member) => member.as_u64(),
            None => None,
        },
        Err(_) => None,
    }
}

/// Appends the decimal digits of `n` to `out`.
fn push_decimal(out: &mut Vec<u8>, n: u64)
    ensures
        final(out)@ == old(out)@ + decimal(n as nat),
    decreases n,
{
    if n >= 10 {
        push_decimal(out, n / 10);
    }
    let digit = (n % 10) as u8;
    out.push(48 + digit);
    assert(out@ =~= old(out)@ + decimal(n as nat));
}

/// Appends `bytes` to `out`.
fn push_all(out: &mut Vec<u8>, bytes: &[u8])
    ensures
        final(out)@ == old(out)@ + bytes@,
{
    let mut i: usize = 0;
    while i < bytes.len()
        invariant
            i <= bytes.len(),
            out@ == old(out)@ + bytes@.subrange(0, i as int),
        decreases bytes.len() - i,
    {
        out.push(bytes[i]);
        i = i + 1;
        assert(out@ =~= old(out)@ + bytes@.subrange(0, i as int));
    }
    assert(bytes@.subrange(0, i as int) =~= bytes@);
}

/// Writes the record of a probe.
pub fn encode_probe(sequence_id: u64, origin_micros: u64) -> (payload: Vec<u8>)
    ensures
        payload@ == probe_text(sequence_id, origin_micros),
{
    let tick: [u8; 8] = [123, 34, 116, 105, 99, 107, 34, 58];
    let stamp: [u8; 13] = [44, 34, 116, 105, 109, 101, 115, 116, 97, 109, 112, 34, 58];
    let mut payload: Vec<u8> = Vec::new();
    push_all(&mut payload, tick.as_slice());
    push_decimal(&mut payload, sequence_id);
    push_all(&mut payload, stamp.as_slice());
    push_decimal(&mut payload, origin_micros);
    payload.push(125);
    assert(tick@ =~= tick_prefix());
    assert(stamp@ =~= stamp_prefix());
    assert(payload@ =~= probe_text(sequence_id, origin_micros));
    payload
}

/// Reads the sequence id out of a received record. Any JSON object with an
/// unsigned integer member `tick` has one; anything else has none.
pub fn decode_sequence_id(payload: &[u8]) -> (sequence_id: Option<u64>)
    ensures
        sequence_id == sequence_id_in(payload@),
{
    read_u64_member(payload, "tick")
}

/// A decimal number has at least one digit, every one of them an ASCII
/// digit, and no leading zero unless it is `0` itself.
pub proof fn lemma_decimal_digits(n: nat)
    ensures
        decimal(n).len() >= 1,
        forall|i: int| 0 <= i < decimal(n).len() ==> 48 <= #[trigger] decimal(n)[i] <= 57,
        n > 0 ==> decimal(n)[0] != 48,
        n == 0 ==> decimal(n) == seq![48u8],
    decreases n,
{
    if n >= 10 {
        lemma_decimal_digits(n / 10);
    }
}

/// The number that a string of ASCII decimal digits denotes.
pub open spec fn denoted(digits: Seq<u8>) -> nat
    decreases digits.len(),
{
    if digits.len() == 0 {
        0
    } else {
        (denoted(digits.drop_last()) * 10 + (digits.last() - 48)) as nat
    }
}

/// The digits written for a number denote that number.
pub proof fn lemma_decimal_denotes(n: nat)
    ensures
        denoted(decimal(n)) == n,
    decreases n,
{
    let digits = decimal(n);
    if n < 10 {
        assert(digits.drop_last() =~= Seq::<u8>::empty());
        assert(denoted(digits.drop_last()) == 0);
    } else {
        lemma_decimal_denotes(n / 10);
        assert(digits.drop_last() =~= decimal(n / 10));
    }
}

/// Different numbers are written with different digits.
pub proof fn lemma_decimal_injective(a: nat, b: nat)
    requires
        decimal(a) == decimal(b),
    ensures
        a == b,
{
    lemma_decimal_denotes(a);
    lemma_decimal_denotes(b);
}

/// If two digit strings, each followed by something that does not begin
/// with a digit, read the same, then the digit strings are the same and so
/// is what follows.
proof fn lemma_digits_end_at_first_other(a: Seq<u8>, rest_a: Seq<u8>, b: Seq<u8>, rest_b: Seq<u8>)
    requires
        a + rest_a == b + rest_b,
        forall|i: int| 0 <= i < a.len() ==> 48 <= #[trigger] a[i] <= 57,
        forall|i: int| 0 <= i < b.len() ==> 48 <= #[trigger] b[i] <= 57,
        rest_a.len() > 0 && !(48 <= rest_a[0] <= 57),
        rest_b.len() > 0 && !(48 <= rest_b[0] <= 57),
    ensures
        a == b,
        rest_a == rest_b,
{
    let whole = a + rest_a;
    if a.len() < b.len() {
        assert(whole[a.len() as int] == rest_a[0]);
        assert((b + rest_b)[a.len() as int] == b[a.len() as int]);
    }
    if b.len() < a.len() {
        assert((b + rest_b)[b.len() as int] == rest_b[0]);
        assert(whole[b.len() as int] == a[b.len() as int]);
    }
    assert(a =~= whole.subrange(0, a.len() as int));
    assert(b =~= (b + rest_b).subrange(0, b.len() as int));
    assert(rest_a =~= whole.subrange(a.len() as int, whole.len() as int));
    assert(rest_b =~= (b + rest_b).subrange(b.len() as int, (b + rest_b).len() as int));
}

/// A record names its probe: two probes with the same record have the same
/// sequence id and the same origin timestamp.
pub proof fn lemma_record_names_probe(id_a: u64, origin_a: u64, id_b: u64, origin_b: u64)
    requires
        probe_text(id_a, origin_a) == probe_text(id_b, origin_b),
    ensures
        id_a == id_b,
        origin_a == origin_b,
{
    let ticks_a = decimal(id_a as nat);
    let ticks_b = decimal(id_b as nat);
    let stamp_a = decimal(origin_a as nat);
    let stamp_b = decimal(origin_b as nat);
    lemma_decimal_digits(id_a as nat);
    lemma_decimal_digits(id_b as nat);
    lemma_decimal_digits(origin_a as nat);
    lemma_decimal_digits(origin_b as nat);
    let tail_a = stamp_prefix() + stamp_a + record_suffix();
    let tail_b = stamp_prefix() + stamp_b + record_suffix();
    let text_a = probe_text(id_a, origin_a);
    let text_b = probe_text(id_b, origin_b);
    assert(text_a =~= tick_prefix() + (ticks_a + tail_a));
    assert(text_b =~= tick_prefix() + (ticks_b + tail_b));
    assert(ticks_a + tail_a =~= text_a.subrange(8, text_a.len() as int));
    assert(ticks_b + tail_b =~= text_b.subrange(8, text_b.len() as int));
    assert(tail_a[0] == 44);
    assert(tail_b[0] == 44);
    lemma_digits_end_at_first_other(ticks_a, tail_a, ticks_b, tail_b);
    lemma_decimal_injective(id_a as nat, id_b as nat);
    assert(tail_a =~= stamp_prefix() + (stamp_a + record_suffix()));
    assert(tail_b =~= stamp_prefix() + (stamp_b + record_suffix()));
    assert(stamp_a + record_suffix() =~= tail_a.subrange(13, tail_a.len() as int));
    assert(stamp_b + record_suffix() =~= tail_b.subrange(13, tail_b.len() as int));
    lemma_digits_end_at_first_other(stamp_a, record_suffix(), stamp_b, record_suffix());
    lemma_decimal_injective(origin_a as nat, origin_b as nat);
}

} // verus!
