//! Reading numbers and delimited fields from the front of a byte string.

use crate::bytes::find_byte;
use crate::bytes::first_index;
use crate::bytes::lemma_first_index;
use vstd::prelude::*;
use vstd::slice::slice_subrange;

verus! {

/// The number that the first four bytes of `s` are in big endian order.
pub open spec fn be_u32(s: Seq<u8>) -> int {
    s[0] * 0x100_0000 + s[1] * 0x1_0000 + s[2] * 0x100 + s[3]
}

/// The first `pos` bytes of `data` and the rest, if `data` is that long.
pub fn split_at_pos<'a>(data: &'a [u8], pos: usize) -> (parts: Option<(&'a [u8], &'a [u8])>)
    ensures
        match parts {
            Some((head, tail)) => {
                &&& pos <= data@.len()
                &&& head@ == data@.take(pos as int)
                &&& tail@ == data@.skip(pos as int)
            },
            None => pos > data@.len(),
        },
{
    if data.len() < pos {
        return None;
    }
    let head = slice_subrange(data, 0, pos);
    let tail = slice_subrange(data, pos, data.len());
    assert(head@ =~= data@.take(pos as int));
    assert(tail@ =~= data@.skip(pos as int));
    Some((head, tail))
}

/// The big endian number in the first four bytes of `data` and the rest, if
/// `data` is that long.
pub fn read_u32<'a>(data: &'a [u8]) -> (parts: Option<(u32, &'a [u8])>)
    ensures
        match parts {
            Some((number, rest)) => {
                &&& data@.len() >= 4
                &&& number == be_u32(data@)
                &&& rest@ == data@.skip(4)
            },
            None => data@.len() < 4,
        },
{
    match split_at_pos(data, 4) {
        Some((head, rest)) => {
            let b0: u32 = head[0] as u32;
            let b1: u32 = head[1] as u32;
            let b2: u32 = head[2] as u32;
            let b3: u32 = head[3] as u32;
            Some((b0 * 0x100_0000 + b1 * 0x1_0000 + b2 * 0x100 + b3, rest))
        },
        None => None,
    }
}

/// Where the first `byte` stands in `s`, if `s` has at least two bytes and
/// `byte` is among them. A single byte is never split.
pub open spec fn delimiter(s: Seq<u8>, byte: u8) -> Option<int> {
    if s.len() >= 2 && first_index(s, byte) < s.len() {
        Some(first_index(s, byte))
    } else {
        None
    }
}

/// What stands before the first `byte` in `data` and what stands after it,
/// if `data` has at least two bytes and `byte` is among them.
pub fn split_at_byte_exclusive<'a>(data: &'a [u8], byte: u8) -> (parts: Option<
    (&'a [u8], &'a [u8]),
>)
    ensures
        match parts {
            Some((head, tail)) => {
                &&& delimiter(data@, byte) matches Some(at)
                &&& head@ == data@.take(at)
                &&& tail@ == data@.skip(at + 1)
            },
            None => delimiter(data@, byte) is None,
        },
{
    if data.len() < 2 {
        return None;
    }
    let at = find_byte(data, 0, byte);
    assert(data@.skip(0) =~= data@);
    if at == data.len() {
        return None;
    }
    let head = slice_subrange(data, 0, at);
    let tail = slice_subrange(data, at + 1, data.len());
    assert(head@ =~= data@.take(at as int));
    assert(tail@ =~= data@.skip(at + 1));
    Some((head, tail))
}

/// The rest of a number of variable length whose bytes before `at` gave
/// `value` and asked for more: the number and where it ends. Each further
/// byte adds one to what came before and appends its low seven bits; a byte
/// below 128 is the last. `None` if the bytes end too soon or the number
/// exceeds 64 bits.
pub open spec fn var_int_more(s: Seq<u8>, at: int, value: int) -> Option<(int, int)>
    decreases s.len() - at,
{
    if at < 0 || at >= s.len() {
        None
    } else {
        let next = (value + 1) * 128 + s[at] % 128;
        if next > u64::MAX {
            None
        } else if s[at] >= 128 {
            var_int_more(s, at + 1, next)
        } else {
            Some((next, at + 1))
        }
    }
}

/// The number of variable length at the front of `s`, and where it ends.
pub open spec fn var_int_at(s: Seq<u8>) -> Option<(int, int)> {
    if s.len() == 0 {
        None
    } else if s[0] >= 128 {
        var_int_more(s, 1, (s[0] % 128) as int)
    } else {
        Some((s[0] as int, 1))
    }
}

/// A number of variable length ends after at least one byte and within the
/// bytes, and fits in 64 bits.
pub proof fn lemma_var_int_more(s: Seq<u8>, at: int, value: int)
    requires
        0 <= value,
        0 <= at,
    ensures
        var_int_more(s, at, value) matches Some((number, end)) ==> at < end <= s.len() && 0
            <= number <= u64::MAX,
    decreases s.len() - at,
{
    if at < s.len() {
        let next = (value + 1) * 128 + s[at] % 128;
        if next <= u64::MAX && s[at] >= 128 {
            lemma_var_int_more(s, at + 1, next);
        }
    }
}

/// The number of variable length at the front of `data` and the rest, if
/// the number is complete and fits in 64 bits.
pub fn var_int<'a>(data: &'a [u8]) -> (parts: Option<(u64, &'a [u8])>)
    ensures
        match parts {
            Some((number, rest)) => {
                &&& var_int_at(data@) matches Some((value, end))
                &&& number == value
                &&& 0 < end <= data@.len()
                &&& rest@ == data@.skip(end)
            },
            None => var_int_at(data@) is None,
        },
{
    if data.len() == 0 {
        return None;
    }
    let mut byte: u8 = data[0];
    let mut value: u64 = (byte % 128) as u64;
    let mut at: usize = 1;
    while byte >= 128
        invariant
            0 < at <= data@.len(),
            byte == data@[at - 1],
            byte >= 128 ==> var_int_at(data@) == var_int_more(data@, at as int, value as int),
            byte < 128 ==> var_int_at(data@) == Some((value as int, at as int)),
        decreases data@.len() - at,
    {
        if at == data.len() {
            return None;
        }
        byte = data[at];
        let next: u128 = (value as u128 + 1) * 128 + (byte % 128) as u128;
        if next > u64::MAX as u128 {
            return None;
        }
        value = next as u64;
        at += 1;
    }
    let rest = slice_subrange(data, at, data.len());
    assert(rest@ =~= data@.skip(at as int));
    Some((value, rest))
}

} // verus!
