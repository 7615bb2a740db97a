//! Searching, comparing and copying byte strings.

use vstd::prelude::*;

verus! {

/// The index of the first occurrence of `byte` in `s`, or the length of `s`
/// if `byte` does not occur.
pub open spec fn first_index(s: Seq<u8>, byte: u8) -> int
    decreases s.len(),
{
    if s.len() == 0 || s[0] == byte {
        0
    } else {
        1 + first_index(s.skip(1), byte)
    }
}

/// Whether `byte` occurs nowhere in `s`.
pub open spec fn free_of(s: Seq<u8>, byte: u8) -> bool {
    forall|i: int| 0 <= i < s.len() ==> s[i] != byte
}

/// `first_index` lies within the sequence, nothing before it is `byte`, and
/// unless it is the end of the sequence, `byte` stands at it.
pub proof fn lemma_first_index(s: Seq<u8>, byte: u8)
    ensures
        0 <= first_index(s, byte) <= s.len(),
        forall|i: int| 0 <= i < first_index(s, byte) ==> s[i] != byte,
        first_index(s, byte) < s.len() ==> s[first_index(s, byte)] == byte,
    decreases s.len(),
{
    if !(s.len() == 0 || s[0] == byte) {
        let tail = s.skip(1);
        lemma_first_index(tail, byte);
        assert forall|i: int| 0 <= i < first_index(s, byte) implies s[i] != byte by {
            if i > 0 {
                assert(s[i] == tail[i - 1]);
            }
        }
        assert(tail.len() == s.len() - 1);
        if first_index(s, byte) < s.len() {
            assert(s[first_index(s, byte)] == tail[first_index(tail, byte)]);
        }
    }
}

/// An index with the properties of `lemma_first_index` is `first_index`.
pub proof fn lemma_first_index_is(s: Seq<u8>, byte: u8, at: int)
    requires
        0 <= at <= s.len(),
        forall|i: int| 0 <= i < at ==> s[i] != byte,
        at < s.len() ==> s[at] == byte,
    ensures
        first_index(s, byte) == at,
    decreases s.len(),
{
    if at > 0 {
        let tail = s.skip(1);
        assert forall|i: int| 0 <= i < at - 1 implies tail[i] != byte by {
            assert(tail[i] == s[i + 1]);
        }
        lemma_first_index_is(tail, byte, at - 1);
    }
}

/// The position of the first `byte` at or after `from`, or the length of
/// `data` if there is none.
pub fn find_byte(data: &[u8], from: usize, byte: u8) -> (at: usize)
    requires
        from <= data@.len(),
    ensures
        from <= at <= data@.len(),
        at == from + first_index(data@.skip(from as int), byte),
{
    let mut at: usize = from;
    while at < data.len() && data[at] != byte
        invariant
            from <= at <= data@.len(),
            forall|i: int| from <= i < at ==> data@[i] != byte,
        decreases data@.len() - at,
    {
        at += 1;
    }
    proof {
        lemma_first_index_is(data@.skip(from as int), byte, at - from);
    }
    at
}

/// Whether `byte` occurs in `data`.
pub fn contains_byte(data: &[u8], byte: u8) -> (found: bool)
    ensures
        found == !free_of(data@, byte),
{
    let at = find_byte(data, 0, byte);
    proof {
        assert(data@.skip(0) == data@);
        lemma_first_index(data@, byte);
    }
    at < data.len()
}

/// Whether two byte strings are the same.
pub fn same_bytes(a: &[u8], b: &[u8]) -> (same: bool)
    ensures
        same == (a@ == b@),
{
    if a.len() != b.len() {
        return false;
    }
    let mut i: usize = 0;
    while i < a.len()
        invariant
            i <= a@.len(),
            a@.len() == b@.len(),
            forall|k: int| 0 <= k < i ==> a@[k] == b@[k],
        decreases a@.len() - i,
    {
        if a[i] != b[i] {
            return false;
        }
        i += 1;
    }
    assert(a@ =~= b@);
    true
}

/// Appends `data` to `out`.
pub fn append(out: &mut Vec<u8>, data: &[u8])
    ensures
        final(out)@ == old(out)@ + data@,
{
    let mut i: usize = 0;
    while i < data.len()
        invariant
            i <= data@.len(),
            out@ == old(out)@ + data@.take(i as int),
        decreases data@.len() - i,
    {
        out.push(data[i]);
        i += 1;
        assert(out@ =~= old(out)@ + data@.take(i as int));
    }
    assert(data@.take(data@.len() as int) =~= data@);
}

/// A copy of the bytes of `data` from `from` up to, not including, `to`.
pub fn copy_range(data: &[u8], from: usize, to: usize) -> (out: Vec<u8>)
    requires
        from <= to <= data@.len(),
    ensures
        out@ == data@.subrange(from as int, to as int),
{
    let mut out: Vec<u8> = Vec::new();
    let mut i: usize = from;
    while i < to
        invariant
            from <= i <= to <= data@.len(),
            out@ == data@.subrange(from as int, i as int),
        decreases to - i,
    {
        out.push(data[i]);
        i += 1;
        assert(out@ =~= data@.subrange(from as int, i as int));
    }
    out
}

/// A copy of `data`.
pub fn copy_bytes(data: &[u8]) -> (out: Vec<u8>)
    ensures
        out@ == data@,
{
    let out = copy_range(data, 0, data.len());
    assert(data@.subrange(0, data@.len() as int) =~= data@);
    out
}

} // verus!
