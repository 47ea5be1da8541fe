//! Byte-level decoding of call arguments and little-endian amounts.

use vstd::prelude::*;
use vstd::bytes::{spec_u128_from_le_bytes, spec_u128_to_le_bytes};

verus! {

/// The bytes of an ASCII text, one per character.
pub open spec fn ascii_bytes(s: Seq<char>) -> Seq<u8> {
    Seq::new(s.len(), |i: int| s[i] as u8)
}

/// The bytes of an ASCII string literal.
pub fn ascii_literal(s: &'static str) -> (b: &'static [u8])
    requires
        vstd::string::is_ascii(s),
    ensures
        b@ == ascii_bytes(s@),
{
    let b = s.as_bytes();
    proof {
        vstd::string::is_ascii_spec_bytes(s);
    }
    assert(b@ =~= ascii_bytes(s@));
    b
}

/// Whether two byte strings are equal.
pub fn bytes_eq(a: &[u8], b: &[u8]) -> (r: bool)
    ensures
        r == (a@ == b@),
{
    if a.len() != b.len() {
        return false;
    }
    let mut i: usize = 0;
    while i < a.len()
        invariant
            a@.len() == b@.len(),
            i <= a@.len(),
            forall|j: int| 0 <= j < i ==> a@[j] == b@[j],
        decreases a@.len() - i,
    {
        if a[i] != b[i] {
            return false;
        }
        i = i + 1;
    }
    assert(a@ =~= b@);
    true
}

/// The 32-byte account stored at `offset` in `args`, when `args` is long enough.
pub open spec fn spec_read_account(args: Seq<u8>, offset: int) -> Option<Seq<u8>> {
    if args.len() < offset + 32 {
        None
    } else {
        Some(args.subrange(offset, offset + 32))
    }
}

/// The little-endian `u128` stored at `offset` in `args`, when `args` is long enough.
pub open spec fn spec_read_u128(args: Seq<u8>, offset: int) -> Option<u128> {
    if args.len() < offset + 16 {
        None
    } else {
        Some(spec_u128_from_le_bytes(args.subrange(offset, offset + 16)))
    }
}

/// The 16 little-endian bytes of `x`.
pub open spec fn le_bytes(x: u128) -> Seq<u8> {
    spec_u128_to_le_bytes(x)
}

/// Reads a 32-byte account from `args` at `offset`; `None` when fewer than
/// `offset + 32` bytes are there.
pub fn read_account(args: &[u8], offset: usize) -> (r: Option<[u8; 32]>)
    requires
        offset + 32 <= usize::MAX,
    ensures
        r is Some <==> spec_read_account(args@, offset as int) is Some,
        r matches Some(a) ==> a@ == spec_read_account(args@, offset as int)->0,
{
    if args.len() < offset + 32 {
        return None;
    }
    let mut account = [0u8; 32];
    let mut i: usize = 0;
    while i < 32
        invariant
            i <= 32,
            offset + 32 <= args@.len(),
            offset + 32 <= usize::MAX,
            account@.len() == 32,
            forall|j: int| 0 <= j < i ==> account@[j] == args@[offset + j],
        decreases 32 - i,
    {
        account[i] = args[offset + i];
        i = i + 1;
    }
    assert(account@ =~= args@.subrange(offset as int, offset + 32));
    Some(account)
}

/// Reads a little-endian `u128` from `args` at `offset`; `None` when fewer
/// than `offset + 16` bytes are there.
pub fn read_u128_arg(args: &[u8], offset: usize) -> (r: Option<u128>)
    requires
        offset + 16 <= usize::MAX,
    ensures
        r == spec_read_u128(args@, offset as int),
{
    if args.len() < offset + 16 {
        return None;
    }
    let mut buf = [0u8; 16];
    let mut i: usize = 0;
    while i < 16
        invariant
            i <= 16,
            offset + 16 <= args@.len(),
            offset + 16 <= usize::MAX,
            buf@.len() == 16,
            forall|j: int| 0 <= j < i ==> buf@[j] == args@[offset + j],
        decreases 16 - i,
    {
        buf[i] = args[offset + i];
        i = i + 1;
    }
    assert(buf@ =~= args@.subrange(offset as int, offset + 16));
    let v = vstd::bytes::u128_from_le_bytes(&buf);
    Some(v)
}

/// Appends the 16 little-endian bytes of `x` to `out`.
pub fn push_u128_le(out: &mut Vec<u8>, x: u128)
    ensures
        final(out)@ == old(out)@ + le_bytes(x),
{
    let b = vstd::bytes::u128_to_le_bytes(x);
    let mut i: usize = 0;
    let ghost start = out@;
    while i < b.len()
        invariant
            b@ == le_bytes(x),
            i <= b@.len(),
            out@ == start + b@.take(i as int),
        decreases b@.len() - i,
    {
        out.push(b[i]);
        i = i + 1;
        assert(out@ =~= start + b@.take(i as int));
    }
    assert(b@.take(b@.len() as int) =~= b@);
}

/// Appends all of `bytes` to `out`.
pub fn push_bytes(out: &mut Vec<u8>, bytes: &[u8])
    ensures
        final(out)@ == old(out)@ + bytes@,
{
    let mut i: usize = 0;
    let ghost start = out@;
    while i < bytes.len()
        invariant
            i <= bytes@.len(),
            out@ == start + bytes@.take(i as int),
        decreases bytes@.len() - i,
    {
        out.push(bytes[i]);
        i = i + 1;
        assert(out@ =~= start + bytes@.take(i as int));
    }
    assert(bytes@.take(bytes@.len() as int) =~= bytes@);
}

/// A `u128` written out in little-endian order and read back at the same
/// offset gives the value that was written.
pub proof fn lemma_read_written_u128(prefix: Seq<u8>, x: u128, suffix: Seq<u8>)
    ensures
        spec_read_u128(prefix + le_bytes(x) + suffix, prefix.len() as int) == Some(x),
{
    vstd::bytes::lemma_auto_spec_u128_to_from_le_bytes();
    let s = prefix + le_bytes(x) + suffix;
    assert(s.subrange(prefix.len() as int, prefix.len() + 16 as int) =~= le_bytes(x));
}

} // verus!
