//! The SCALE encoding of fixed-point values: the 16 bytes of the inner `u128`, least
//! significant first, as `parity_scale_codec` writes and reads them.

use parity_scale_codec::{Decode, Encode};
use sp_arithmetic::FixedU128;
use vstd::prelude::*;

verus! {

/// `256^n`.
pub open spec fn pow256(n: nat) -> nat
    decreases n,
{
    if n == 0 { 1 } else { 256 * pow256((n - 1) as nat) }
}

/// The `n` bytes of `x` (taken modulo `256^n`), least significant first.
pub open spec fn le_bytes(x: nat, n: nat) -> Seq<u8>
    decreases n,
{
    if n == 0 {
        Seq::empty()
    } else {
        seq![(x % 256) as u8] + le_bytes(x / 256, (n - 1) as nat)
    }
}

/// The number whose bytes, least significant first, are `s`.
pub open spec fn le_value(s: Seq<u8>) -> nat
    decreases s.len(),
{
    if s.len() == 0 {
        0
    } else {
        s[0] as nat + 256 * le_value(s.drop_first())
    }
}

/// Calls `Encode::encode` on `FixedU128::from_inner(x)`; the derived encoding of the
/// newtype is that of its `u128`, `to_le_bytes`: sixteen bytes, least significant first.
#[verifier::external_body]
pub(crate) fn encode_fixed(x: u128) -> (r: Vec<u8>)
    ensures
        r@ == le_bytes(x as nat, 16),
{
    FixedU128::from_inner(x).encode()
}

/// Calls `Decode::decode` for `FixedU128` on the bytes; the derived decoding reads the
/// `u128` with `Input::read` into sixteen bytes and `from_le_bytes`, which fails when
/// fewer bytes are left (that failure is returned as `None`, the codec's error message
/// dropped).  Bytes after the sixteenth are not read.
#[verifier::external_body]
pub(crate) fn decode_fixed(bytes: &[u8]) -> (r: Option<u128>)
    ensures
        r == (if bytes@.len() < 16 { None::<u128> } else { Some(le_value(bytes@.take(16)) as u128) }),
{
    let mut input: &[u8] = bytes;
    match FixedU128::decode(&mut input) {
        Ok(f) => Some(f.into_inner()),
        Err(_) => None,
    }
}

/// The compact SCALE encoding of a length `n` below `2^32`: one, two or four bytes
/// holding `4n` plus the mode (0, 1 or 2), least significant first, or the mode byte 3
/// followed by the four bytes of `n`.
pub open spec fn compact_bytes(n: nat) -> Seq<u8> {
    if n < 0x40 {
        le_bytes(4 * n, 1)
    } else if n < 0x4000 {
        le_bytes(4 * n + 1, 2)
    } else if n < 0x4000_0000 {
        le_bytes(4 * n + 2, 4)
    } else {
        seq![3u8] + le_bytes(n, 4)
    }
}

/// The 24 bytes of a deposit entry: the account, the proxy deposit and the announcement
/// deposit, eight bytes each, least significant first.
pub open spec fn entry_bytes(e: (u64, (u64, u64))) -> Seq<u8> {
    le_bytes(e.0 as nat, 8) + le_bytes(e.1.0 as nat, 8) + le_bytes(e.1.1 as nat, 8)
}

/// The bytes of the entries, one after the other.
pub open spec fn entries_bytes(s: Seq<(u64, (u64, u64))>) -> Seq<u8>
    decreases s.len(),
{
    if s.len() == 0 { Seq::empty() } else { entries_bytes(s.drop_last()) + entry_bytes(s.last()) }
}

/// The SCALE encoding of a list of deposits `(account, (proxy deposit, announcement
/// deposit))`: its length, compact, then each entry's 24 bytes.
pub open spec fn encoded_deposits(entries: Seq<(u64, (u64, u64))>) -> Seq<u8> {
    compact_bytes(entries.len()) + entries_bytes(entries)
}

/// The length that the compact bytes at the start of `b` stand for, and how many bytes
/// they take, if they encode a `u32` in its shortest form (the codec refuses a longer
/// form than the value needs, and a big-number form wider than four bytes).
pub open spec fn compact_read(b: Seq<u8>) -> Option<(nat, nat)> {
    if b.len() == 0 {
        None
    } else if b[0] % 4 == 0 {
        Some(((b[0] / 4) as nat, 1nat))
    } else if b[0] % 4 == 1 {
        let x = le_value(b.take(2)) / 4;
        if b.len() >= 2 && x >= 0x40 { Some((x, 2nat)) } else { None }
    } else if b[0] % 4 == 2 {
        let x = le_value(b.take(4)) / 4;
        if b.len() >= 4 && x >= 0x4000 { Some((x, 4nat)) } else { None }
    } else {
        let x = le_value(b.subrange(1, 5));
        if b[0] == 3 && b.len() >= 5 && x >= 0x4000_0000 { Some((x, 5nat)) } else { None }
    }
}

/// The entry whose 24 bytes start at `at` in `b`.
pub open spec fn entry_read(b: Seq<u8>, at: int) -> (u64, (u64, u64)) {
    (le_value(b.subrange(at, at + 8)) as u64,
        (le_value(b.subrange(at + 8, at + 16)) as u64, le_value(b.subrange(at + 16, at + 24)) as u64))
}

/// The list of deposits that `bytes` decode to, if they do: a compact length `n`, then
/// `n` entries of 24 bytes each (bytes after them are not read).
pub open spec fn decoded_deposits(bytes: Seq<u8>) -> Option<Seq<(u64, (u64, u64))>> {
    match compact_read(bytes) {
        None => None,
        Some((n, k)) => if bytes.len() < k + 24 * n {
            None
        } else {
            Some(Seq::new(n, |i: int| entry_read(bytes, k + 24 * i)))
        },
    }
}

/// Calls `Encode::encode` on the list of deposits: the compact length, then each
/// entry's three `u64`, little-endian.  A list longer than `u32::MAX` entries cannot be
/// encoded (the codec panics), so it is excluded.
#[verifier::external_body]
pub(crate) fn encode_deposits(entries: &Vec<(u64, (u64, u64))>) -> (r: Vec<u8>)
    requires
        entries@.len() <= u32::MAX,
    ensures
        r@ == encoded_deposits(entries@),
{
    entries.encode()
}

/// Calls `Decode::decode` for a list of deposits on the bytes: a compact length in its
/// shortest form, then that many entries of three little-endian `u64`; the codec's error
/// message is dropped (`None`).
#[verifier::external_body]
pub(crate) fn decode_deposits(bytes: &[u8]) -> (r: Option<Vec<(u64, (u64, u64))>>)
    ensures
        r is None <==> decoded_deposits(bytes@) is None,
        r matches Some(v) ==> decoded_deposits(bytes@) == Some(v@),
{
    let mut input: &[u8] = bytes;
    match <Vec<(u64, (u64, u64))>>::decode(&mut input) {
        Ok(v) => Some(v),
        Err(_) => None,
    }
}

/// `256^n` is positive.
pub proof fn lemma_pow256_positive(n: nat)
    ensures
        pow256(n) > 0,
    decreases n,
{
    if n > 0 {
        lemma_pow256_positive((n - 1) as nat);
    }
}

/// `2^128`, the number of `u128` values, is `256^16`.
pub proof fn lemma_pow256_16()
    ensures
        pow256(16) == u128::MAX + 1,
{
    reveal_with_fuel(pow256, 17);
    assert(pow256(16) == 0x1_0000_0000_0000_0000_0000_0000_0000_0000nat);
}

/// `le_bytes` has `n` bytes, and reading them back gives `x` modulo `256^n`.
pub proof fn lemma_le_roundtrip(x: nat, n: nat)
    ensures
        le_bytes(x, n).len() == n,
        le_value(le_bytes(x, n)) == x % pow256(n),
    decreases n,
{
    if n == 0 {
        assert(x % 1 == 0);
    } else {
        let m = (n - 1) as nat;
        lemma_le_roundtrip(x / 256, m);
        lemma_pow256_positive(m);
        let s = le_bytes(x, n);
        assert(s.drop_first() =~= le_bytes(x / 256, m));
        assert(s[0] as nat == x % 256);
        vstd::arithmetic::div_mod::lemma_mod_breakdown(x as int, 256, pow256(m) as int);
    }
}

/// A value read from bytes is below `256^len`.
pub proof fn lemma_le_value_bound(s: Seq<u8>)
    ensures
        le_value(s) < pow256(s.len()),
    decreases s.len(),
{
    if s.len() > 0 {
        let t = s.drop_first();
        lemma_le_value_bound(t);
        let v = le_value(t);
        let p = pow256(t.len());
        assert(s[0] as nat + 256 * v < 256 * p) by (nonlinear_arith)
            requires v < p, s[0] < 256;
    }
}

/// Encoding a `u128` and decoding its bytes gives it back.
pub proof fn lemma_u128_bytes_roundtrip(x: u128)
    ensures
        le_bytes(x as nat, 16).len() == 16,
        le_bytes(x as nat, 16).take(16) == le_bytes(x as nat, 16),
        le_value(le_bytes(x as nat, 16)) == x,
{
    lemma_le_roundtrip(x as nat, 16);
    lemma_pow256_16();
    assert(le_bytes(x as nat, 16).take(16) =~= le_bytes(x as nat, 16));
}


/// The entries' bytes are 24 per entry, entry `i`'s at `24 i`.
pub proof fn lemma_entries_bytes(s: Seq<(u64, (u64, u64))>)
    ensures
        entries_bytes(s).len() == 24 * s.len(),
        forall|i: int| 0 <= i < s.len() ==> #[trigger] entries_bytes(s).subrange(24 * i, 24 * i + 24) == entry_bytes(s[i]),
    decreases s.len(),
{
    if s.len() > 0 {
        let t = s.drop_last();
        lemma_entries_bytes(t);
        let e = entries_bytes(t);
        let l = entry_bytes(s.last());
        lemma_le_roundtrip(s.last().0 as nat, 8);
        lemma_le_roundtrip(s.last().1.0 as nat, 8);
        lemma_le_roundtrip(s.last().1.1 as nat, 8);
        assert(l.len() == 24);
        assert forall|i: int| 0 <= i < s.len() implies #[trigger] entries_bytes(s).subrange(24 * i, 24 * i + 24) == entry_bytes(s[i]) by {
            if i < s.len() - 1 {
                assert(entries_bytes(s).subrange(24 * i, 24 * i + 24) =~= e.subrange(24 * i, 24 * i + 24));
                assert(s[i] == t[i]);
            } else {
                assert(entries_bytes(s).subrange(24 * i, 24 * i + 24) =~= l);
            }
        }
    }
}

/// Eight bytes of a `u64` read back give it.
pub proof fn lemma_u64_bytes(x: u64)
    ensures
        le_bytes(x as nat, 8).len() == 8,
        le_value(le_bytes(x as nat, 8)) == x,
{
    lemma_le_roundtrip(x as nat, 8);
    reveal_with_fuel(pow256, 9);
    assert(pow256(8) == 0x1_0000_0000_0000_0000nat);
}

/// The compact encoding of a length below `2^32` reads back as that length.
pub proof fn lemma_compact_roundtrip(n: nat, rest: Seq<u8>)
    requires
        n <= u32::MAX,
    ensures
        compact_read(compact_bytes(n) + rest) == Some((n, compact_bytes(n).len())),
{
    let c = compact_bytes(n);
    let b = c + rest;
    reveal_with_fuel(pow256, 5);
    assert(pow256(1) == 256 && pow256(2) == 65536 && pow256(4) == 0x1_0000_0000nat);
    if n < 0x40 {
        lemma_le_roundtrip(4 * n, 1);
        assert(c =~= seq![((4 * n) % 256) as u8] + le_bytes((4 * n) / 256, 0));
        assert(b[0] == c[0]);
        assert(c[0] == 4 * n);
    } else if n < 0x4000 {
        let v: nat = 4 * n + 1;
        lemma_le_roundtrip(v, 2);
        assert(c =~= seq![(v % 256) as u8] + le_bytes(v / 256, 1));
        assert(b.take(2) =~= c);
        assert(b[0] == c[0]);
        assert(c[0] == v % 256);
        assert((v % 256) % 4 == 1) by (nonlinear_arith)
            requires v == 4 * n + 1;
        assert(le_value(c) == v);
    } else if n < 0x4000_0000 {
        let v: nat = 4 * n + 2;
        lemma_le_roundtrip(v, 4);
        assert(c =~= seq![(v % 256) as u8] + le_bytes(v / 256, 3));
        assert(b.take(4) =~= c);
        assert(b[0] == c[0]);
        assert(c[0] == v % 256);
        assert((v % 256) % 4 == 2) by (nonlinear_arith)
            requires v == 4 * n + 2;
        assert(le_value(c) == v);
    } else {
        lemma_le_roundtrip(n, 4);
        assert(b.subrange(1, 5) =~= le_bytes(n, 4));
        assert(b[0] == 3);
    }
}

/// Decoding what encoding a list of at most `u32::MAX` deposits writes gives the list
/// back.
pub proof fn lemma_deposits_roundtrip(s: Seq<(u64, (u64, u64))>)
    requires
        s.len() <= u32::MAX,
    ensures
        decoded_deposits(encoded_deposits(s)) == Some(s),
{
    let c = compact_bytes(s.len());
    let e = entries_bytes(s);
    let b = c + e;
    lemma_compact_roundtrip(s.len(), e);
    lemma_entries_bytes(s);
    let k = c.len() as int;
    assert forall|i: int| 0 <= i < s.len() implies #[trigger] entry_read(b, k + 24 * i) == s[i] by {
        let w = e.subrange(24 * i, 24 * i + 24);
        assert(w == entry_bytes(s[i]));
        lemma_u64_bytes(s[i].0);
        lemma_u64_bytes(s[i].1.0);
        lemma_u64_bytes(s[i].1.1);
        let x = le_bytes(s[i].0 as nat, 8);
        let y = le_bytes(s[i].1.0 as nat, 8);
        let z = le_bytes(s[i].1.1 as nat, 8);
        let bw = b.subrange(k + 24 * i, k + 24 * i + 24);
        assert forall|j: int| 0 <= j < 24 implies #[trigger] bw[j] == w[j] by {
            assert(bw[j] == b[k + 24 * i + j]);
            assert(b[k + 24 * i + j] == e[24 * i + j]);
        }
        assert(bw =~= w);
        assert(w =~= x + y + z);
        assert(b.subrange(k + 24 * i, k + 24 * i + 8) =~= x);
        assert(bw.subrange(8, 16) =~= y);
        assert(bw.subrange(16, 24) =~= z);
        assert(b.subrange(k + 24 * i + 8, k + 24 * i + 16) =~= bw.subrange(8, 16));
        assert(b.subrange(k + 24 * i + 16, k + 24 * i + 24) =~= bw.subrange(16, 24));
    }
    assert(Seq::new(s.len(), |i: int| entry_read(b, k + 24 * i)) =~= s);
}

} // verus!
