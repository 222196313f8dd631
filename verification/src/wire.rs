//! Low-level binary encoding helpers: little-endian base-128 varints,
//! tagged length-delimited fields, and byte-string comparison.
//!
//! The parameter-set serialization is built from these pieces; every byte of
//! the output is pinned down by the spec functions in this module.

use vstd::prelude::*;

verus! {

/// Little-endian base-128 encoding of `n`: each byte carries seven payload
/// bits and the high bit marks that another byte follows.
pub open spec fn varint_spec(n: nat) -> Seq<u8>
    decreases n,
{
    if n < 128 {
        seq![n as u8]
    } else {
        seq![(n % 128 + 128) as u8] + varint_spec(n / 128)
    }
}

/// The key introducing a field: field number and wire type packed in one varint.
pub open spec fn key_spec(field: nat, wire: nat) -> Seq<u8> {
    varint_spec(field * 8 + wire)
}

/// A length-delimited field: key with wire type 2, payload length, payload.
pub open spec fn len_field_spec(field: nat, payload: Seq<u8>) -> Seq<u8> {
    key_spec(field, 2) + varint_spec(payload.len()) + payload
}

/// A varint-valued field: key with wire type 0, then the value.
pub open spec fn varint_field_spec(field: nat, n: nat) -> Seq<u8> {
    key_spec(field, 0) + varint_spec(n)
}

/// Appends the varint encoding of `n` to `out`.
pub fn push_varint(out: &mut Vec<u8>, n: u64)
    ensures
        final(out)@ == old(out)@ + varint_spec(n as nat),
{
    let ghost prefix: Seq<u8> = old(out)@;
    let mut cur: u64 = n;
    while cur >= 128
        invariant
            prefix + varint_spec(n as nat) =~= out@ + varint_spec(cur as nat),
        decreases cur,
    {
        let ghost before: Seq<u8> = out@;
        let ghost cur0: u64 = cur;
        out.push((cur % 128 + 128) as u8);
        cur = cur / 128;
        proof {
            assert(varint_spec(cur0 as nat) =~= seq![(cur0 as nat % 128 + 128) as u8]
                + varint_spec(cur0 as nat / 128));
            assert(out@ + varint_spec(cur as nat) =~= before + varint_spec(cur0 as nat));
        }
    }
    let ghost before: Seq<u8> = out@;
    let ghost curf: u64 = cur;
    out.push(cur as u8);
    proof {
        assert(varint_spec(curf as nat) =~= seq![curf as u8]);
        assert(out@ =~= before + varint_spec(curf as nat));
        assert(out@ =~= prefix + varint_spec(n as nat));
    }
}

/// Appends a length-delimited field (key, payload length, payload bytes).
pub fn push_len_field(out: &mut Vec<u8>, field: u64, payload: &Vec<u8>)
    requires
        field * 8 + 2 <= u64::MAX,
    ensures
        final(out)@ == old(out)@ + len_field_spec(field as nat, payload@),
{
    let ghost prefix: Seq<u8> = old(out)@;
    push_varint(out, field * 8 + 2);
    push_varint(out, payload.len() as u64);
    let ghost mid: Seq<u8> = out@;
    let mut j: usize = 0;
    while j < payload.len()
        invariant
            0 <= j <= payload@.len(),
            out@ =~= mid + payload@.take(j as int),
        decreases payload@.len() - j,
    {
        let ghost before: Seq<u8> = out@;
        out.push(payload[j]);
        j = j + 1;
        proof {
            assert(payload@.take(j as int) =~= payload@.take(j as int - 1).push(payload@[j as int - 1]));
            assert(out@ =~= mid + payload@.take(j as int));
        }
    }
    proof {
        assert(payload@.take(payload@.len() as int) =~= payload@);
        assert(out@ =~= prefix + len_field_spec(field as nat, payload@));
    }
}

/// Appends a varint-valued field (key, then the value).
pub fn push_varint_field(out: &mut Vec<u8>, field: u64, n: u64)
    requires
        field * 8 <= u64::MAX,
    ensures
        final(out)@ == old(out)@ + varint_field_spec(field as nat, n as nat),
{
    let ghost prefix: Seq<u8> = old(out)@;
    push_varint(out, field * 8);
    push_varint(out, n);
    proof {
        assert(out@ =~= prefix + varint_field_spec(field as nat, n as nat));
    }
}

/// Lexicographic order on byte strings; a proper prefix sorts first.
pub open spec fn lex_le(a: Seq<u8>, b: Seq<u8>) -> bool
    decreases a.len(),
{
    if a.len() == 0 {
        true
    } else if b.len() == 0 {
        false
    } else if a[0] < b[0] {
        true
    } else if a[0] > b[0] {
        false
    } else {
        lex_le(a.skip(1), b.skip(1))
    }
}

/// The lexicographic order is total.
pub proof fn lemma_lex_le_total(a: Seq<u8>, b: Seq<u8>)
    ensures
        lex_le(a, b) || lex_le(b, a),
    decreases a.len(),
{
    if a.len() > 0 && b.len() > 0 && a[0] == b[0] {
        lemma_lex_le_total(a.skip(1), b.skip(1));
    }
}

/// The lexicographic order is transitive.
pub proof fn lemma_lex_le_trans(a: Seq<u8>, b: Seq<u8>, c: Seq<u8>)
    requires
        lex_le(a, b),
        lex_le(b, c),
    ensures
        lex_le(a, c),
    decreases a.len(),
{
    if a.len() > 0 {
        assert(b.len() > 0);
        assert(c.len() > 0);
        if a[0] == b[0] && b[0] == c[0] {
            lemma_lex_le_trans(a.skip(1), b.skip(1), c.skip(1));
        }
    }
}

/// Dropping a shared prefix does not change how two byte strings compare.
proof fn lemma_lex_le_common_prefix(a: Seq<u8>, b: Seq<u8>, i: int)
    requires
        0 <= i <= a.len(),
        i <= b.len(),
        forall|j: int| 0 <= j < i ==> a[j] == b[j],
    ensures
        lex_le(a, b) == lex_le(a.skip(i), b.skip(i)),
    decreases i,
{
    if i > 0 {
        assert(a[0] == b[0]);
        assert forall|j: int| 0 <= j < i - 1 implies a.skip(1)[j] == b.skip(1)[j] by {
            assert(a.skip(1)[j] == a[j + 1]);
            assert(b.skip(1)[j] == b[j + 1]);
        }
        lemma_lex_le_common_prefix(a.skip(1), b.skip(1), i - 1);
        assert(a.skip(1).skip(i - 1) =~= a.skip(i));
        assert(b.skip(1).skip(i - 1) =~= b.skip(i));
    } else {
        assert(a.skip(0) =~= a);
        assert(b.skip(0) =~= b);
    }
}

/// Compares two byte strings lexicographically.
pub fn bytes_le(a: &Vec<u8>, b: &Vec<u8>) -> (r: bool)
    ensures
        r == lex_le(a@, b@),
{
    let alen = a.len();
    let blen = b.len();
    let mut i: usize = 0;
    while i < alen && i < blen
        invariant
            0 <= i <= alen,
            i <= blen,
            alen == a@.len(),
            blen == b@.len(),
            forall|j: int| 0 <= j < i ==> a@[j] == b@[j],
        decreases alen - i,
    {
        if a[i] < b[i] {
            proof {
                lemma_lex_le_common_prefix(a@, b@, i as int);
                assert(a@.skip(i as int)[0] == a@[i as int]);
                assert(b@.skip(i as int)[0] == b@[i as int]);
            }
            return true;
        }
        if a[i] > b[i] {
            proof {
                lemma_lex_le_common_prefix(a@, b@, i as int);
                assert(a@.skip(i as int)[0] == a@[i as int]);
                assert(b@.skip(i as int)[0] == b@[i as int]);
            }
            return false;
        }
        i = i + 1;
    }
    proof {
        lemma_lex_le_common_prefix(a@, b@, i as int);
        if i < alen {
            assert(a@.skip(i as int).len() > 0);
            assert(b@.skip(i as int).len() == 0);
        }
    }
    i == alen
}

/// Copies a byte string.
pub fn clone_bytes(v: &Vec<u8>) -> (r: Vec<u8>)
    ensures
        r@ == v@,
{
    let mut out: Vec<u8> = Vec::new();
    let mut i: usize = 0;
    while i < v.len()
        invariant
            0 <= i <= v@.len(),
            out@ =~= v@.take(i as int),
        decreases v@.len() - i,
    {
        out.push(v[i]);
        i = i + 1;
        proof {
            assert(out@ =~= v@.take(i as int));
        }
    }
    proof {
        assert(v@.take(v@.len() as int) =~= v@);
    }
    out
}

/// Tests two byte strings for equality.
pub fn bytes_eq(a: &Vec<u8>, b: &Vec<u8>) -> (r: bool)
    ensures
        r == (a@ == b@),
{
    if a.len() != b.len() {
        return false;
    }
    let mut i: usize = 0;
    while i < a.len()
        invariant
            0 <= i <= a@.len(),
            a@.len() == b@.len(),
            forall|j: int| 0 <= j < i ==> a@[j] == b@[j],
        decreases a@.len() - i,
    {
        if a[i] != b[i] {
            return false;
        }
        i = i + 1;
    }
    proof {
        assert(a@ =~= b@);
    }
    true
}

} // verus!
