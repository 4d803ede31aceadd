//! Variable-length integers: seven bits to a byte, low group first, the top
//! bit of a byte set while more bytes follow.

use vstd::prelude::*;

verus! {

/// The bytes that stand for `value`.
pub open spec fn varint_bytes(value: nat) -> Seq<u8>
    decreases value,
{
    if value < 128 {
        seq![value as u8]
    } else {
        seq![(128 + value % 128) as u8] + varint_bytes(value / 128)
    }
}

/// Reads the varint at the front of `bytes`, looking at no more than `limit`
/// bytes: its value and how many bytes it takes. `None` where the bytes end,
/// or the limit is reached, before a byte without the top bit.
pub open spec fn varint_scan(bytes: Seq<u8>, limit: nat) -> Option<(nat, nat)>
    decreases limit,
{
    if limit == 0 || bytes.len() == 0 {
        None
    } else if bytes[0] < 128 {
        Some((bytes[0] as nat, 1))
    } else {
        match varint_scan(bytes.skip(1), (limit - 1) as nat) {
            Some((high, n)) => Some(((bytes[0] - 128) as nat + 128 * high, n + 1)),
            None => None,
        }
    }
}

/// The 64-bit varint at the front of `bytes`: its value and its length. It
/// takes at most ten bytes and its value fits in 64 bits.
pub open spec fn varint_prefix(bytes: Seq<u8>) -> Option<(u64, nat)> {
    match varint_scan(bytes, 10) {
        Some((value, n)) => if value <= u64::MAX {
            Some((value as u64, n))
        } else {
            None
        },
        None => None,
    }
}

/// Appends the varint of `value` to `buf`.
///
/// Calls `prost::encoding::encode_varint`, which writes the low seven bits of
/// the value with the top bit set while the rest is not zero, then the last
/// group alone. Nothing else in `buf` changes.
#[verifier::external_body]
pub(crate) fn put_varint(value: u64, buf: &mut Vec<u8>)
    ensures
        final(buf)@ == old(buf)@ + varint_bytes(value as nat),
{
    prost::encoding::encode_varint(value, buf);
}

/// Reads the varint at the front of `bytes`: its value and how many bytes
/// are left behind it.
///
/// Calls `prost::encoding::decode_varint`, which reads up to ten bytes, stops
/// at the first one without the top bit and fails where there is none or
/// where the tenth byte would carry the value past 64 bits.
#[verifier::external_body]
pub(crate) fn take_varint(bytes: &[u8]) -> (r: Option<(u64, usize)>)
    ensures
        match r {
            Some((value, left)) => left <= bytes@.len() && varint_prefix(bytes@) == Some(
                (value, (bytes@.len() - left) as nat),
            ),
            None => varint_prefix(bytes@) is None,
        },
{
    let mut rest = bytes;
    match prost::encoding::decode_varint(&mut rest) {
        Ok(value) => Some((value, rest.len())),
        Err(_) => None,
    }
}

/// A scan takes at least one byte, no more than there are, and no more than
/// its limit.
pub proof fn lemma_scan_bounds(bytes: Seq<u8>, limit: nat)
    ensures
        varint_scan(bytes, limit) matches Some((value, n)) ==> 1 <= n <= bytes.len() && n <= limit,
    decreases limit,
{
    if limit > 0 && bytes.len() > 0 && bytes[0] >= 128 {
        lemma_scan_bounds(bytes.skip(1), (limit - 1) as nat);
    }
}

/// A varint is at least one byte long.
pub proof fn lemma_varint_len(value: nat)
    ensures
        varint_bytes(value).len() >= 1,
    decreases value,
{
    if value >= 128 {
        lemma_varint_len(value / 128);
    }
}

/// The largest value that `n` groups of seven bits can hold, plus one.
pub open spec fn groups(n: nat) -> nat
    decreases n,
{
    if n == 0 {
        1
    } else {
        128 * groups((n - 1) as nat)
    }
}

proof fn lemma_varint_len_bound(value: nat, n: nat)
    requires
        n >= 1,
        value < groups(n),
    ensures
        varint_bytes(value).len() <= n,
    decreases n,
{
    reveal_with_fuel(groups, 2);
    if value >= 128 {
        assert(n >= 2);
        lemma_varint_len_bound(value / 128, (n - 1) as nat);
    }
}

/// The varint of a 64-bit value is at most ten bytes long.
pub proof fn lemma_varint_len_u64(value: u64)
    ensures
        1 <= varint_bytes(value as nat).len() <= 10,
{
    lemma_varint_len(value as nat);
    assert(groups(10) == 0x40_0000_0000_0000_0000) by {
        reveal_with_fuel(groups, 11);
    }
    lemma_varint_len_bound(value as nat, 10);
}

proof fn lemma_scan_written(value: nat, rest: Seq<u8>, limit: nat)
    requires
        varint_bytes(value).len() <= limit,
    ensures
        varint_scan(varint_bytes(value) + rest, limit) == Some(
            (value, varint_bytes(value).len()),
        ),
    decreases value,
{
    let written = varint_bytes(value);
    let all = written + rest;
    lemma_varint_len(value);
    if value < 128 {
        assert(all[0] == value as u8);
    } else {
        let tail = varint_bytes(value / 128);
        assert(all[0] == (128 + value % 128) as u8);
        assert(all.skip(1) =~= tail + rest);
        lemma_scan_written(value / 128, rest, (limit - 1) as nat);
    }
}

/// What was written as a varint is read back as the same value, whatever
/// follows it.
pub proof fn lemma_varint_round_trip(value: u64, rest: Seq<u8>)
    ensures
        varint_prefix(varint_bytes(value as nat) + rest) == Some(
            (value, varint_bytes(value as nat).len()),
        ),
{
    lemma_varint_len_u64(value);
    lemma_scan_written(value as nat, rest, 10);
}

/// The varint at the front of a buffer takes between one byte and all of it.
pub proof fn lemma_prefix_bounds(bytes: Seq<u8>)
    ensures
        varint_prefix(bytes) matches Some((value, n)) ==> 1 <= n <= bytes.len() && n <= 10,
{
    lemma_scan_bounds(bytes, 10);
}

} // verus!
