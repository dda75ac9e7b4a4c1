//! Goal identity: a 128-bit identifier generated by the submitter, carried on
//! the wire as 16 big-endian bytes. It is the join key across the status,
//! feedback and result tables.

use vstd::prelude::*;

verus! {

/// 128-bit identifier of a goal.
#[derive(Clone, Copy, PartialEq, Eq, Structural, Debug, Hash)]
pub struct GoalId {
    pub val: u128,
}

/// Value of a byte string read as one big-endian number.
pub open spec fn bytes_val(s: Seq<u8>) -> nat
    decreases s.len(),
{
    if s.len() == 0 {
        0
    } else {
        (bytes_val(s.drop_last()) * 256 + s.last()) as nat
    }
}

/// 256 to the n-th power: the number of byte strings of length n.
pub open spec fn pow256(n: nat) -> nat
    decreases n,
{
    if n == 0 {
        1
    } else {
        256 * pow256((n - 1) as nat)
    }
}

pub proof fn lemma_bytes_val_bound(s: Seq<u8>)
    ensures
        bytes_val(s) < pow256(s.len()),
    decreases s.len(),
{
    if s.len() == 0 {
    } else {
        lemma_bytes_val_bound(s.drop_last());
        assert(bytes_val(s.drop_last()) * 256 + s.last() < pow256((s.len() - 1) as nat) * 256)
            by (nonlinear_arith)
            requires
                bytes_val(s.drop_last()) < pow256((s.len() - 1) as nat),
                s.last() < 256,
        ;
    }
}

pub proof fn lemma_pow256_increases(i: nat, j: nat)
    requires
        i <= j,
    ensures
        pow256(i) <= pow256(j),
    decreases j,
{
    if i < j {
        lemma_pow256_increases(i, (j - 1) as nat);
        assert(pow256((j - 1) as nat) <= 256 * pow256((j - 1) as nat)) by (nonlinear_arith)
            requires
                pow256((j - 1) as nat) >= 0,
        ;
    }
}

pub proof fn lemma_pow256_16()
    ensures
        pow256(16) == 0x100000000000000000000000000000000,
{
    reveal_with_fuel(pow256, 17);
}

/// A byte string is determined by its length and its value: decoding is
/// injective, so two wire identifiers of equal length decode to the same
/// value only when they are the same bytes.
pub proof fn lemma_bytes_val_injective(a: Seq<u8>, b: Seq<u8>)
    requires
        a.len() == b.len(),
        bytes_val(a) == bytes_val(b),
    ensures
        a == b,
    decreases a.len(),
{
    if a.len() == 0 {
        assert(a =~= b);
    } else {
        assert(bytes_val(a) == bytes_val(a.drop_last()) * 256 + a.last());
        assert(bytes_val(b) == bytes_val(b.drop_last()) * 256 + b.last());
        assert(a.last() == b.last() && bytes_val(a.drop_last()) == bytes_val(b.drop_last()))
            by (nonlinear_arith)
            requires
                bytes_val(a.drop_last()) * 256 + a.last() == bytes_val(b.drop_last()) * 256
                    + b.last(),
                0 <= a.last() < 256,
                0 <= b.last() < 256,
        ;
        lemma_bytes_val_injective(a.drop_last(), b.drop_last());
        assert forall|i: int| 0 <= i < a.len() implies a[i] == b[i] by {
            if i < a.len() - 1 {
                assert(a[i] == a.drop_last()[i]);
                assert(b[i] == b.drop_last()[i]);
            }
        }
        assert(a =~= b);
    }
}

/// Two 16-byte wire identifiers carry the same goal exactly when they are
/// the same bytes: goal routing by decoded identity is routing by the wire
/// bytes themselves.
pub proof fn lemma_goal_of_bytes_injective(a: Seq<u8>, b: Seq<u8>)
    requires
        a.len() == 16,
        b.len() == 16,
        goal_of_bytes(a) == goal_of_bytes(b),
    ensures
        a == b,
{
    lemma_bytes_val_bound(a);
    lemma_bytes_val_bound(b);
    lemma_pow256_16();
    assert(bytes_val(a) == bytes_val(b));
    lemma_bytes_val_injective(a, b);
}

/// Moves a 16-element buffer out of a vector.
///
/// Relies on `Vec::try_into` for arrays: it succeeds exactly when the length
/// matches, and keeps the elements in order.
#[verifier::external_body]
pub fn vec_to_uuid_bytes<T>(v: Vec<T>) -> (r: [T; 16])
    requires
        v@.len() == 16,
    ensures
        r@ == v@,
{
    v.try_into().ok().unwrap()
}

/// The goal identity a 16-byte wire identifier decodes to.
pub open spec fn goal_of_bytes(s: Seq<u8>) -> GoalId {
    GoalId { val: bytes_val(s) as u128 }
}

/// Copies a byte string, element for element.
pub fn copy_bytes(src: &Vec<u8>) -> (r: Vec<u8>)
    ensures
        r@ == src@,
{
    let mut out: Vec<u8> = Vec::new();
    let n = src.len();
    let mut i: usize = 0;
    while i < n
        invariant
            n == src@.len(),
            0 <= i <= n,
            out@ == src@.take(i as int),
        decreases n - i,
    {
        out.push(src[i]);
        proof {
            assert(out@ =~= src@.take(i + 1));
        }
        i = i + 1;
    }
    proof {
        assert(src@.take(n as int) =~= src@);
    }
    out
}

/// Decodes a goal identifier from its 16-byte big-endian wire form. Any
/// other length is a protocol violation and yields `None`.
pub fn goal_id_from_bytes(b: Vec<u8>) -> (r: Option<GoalId>)
    ensures
        b@.len() == 16 ==> r == Some(goal_of_bytes(b@)),
        b@.len() != 16 ==> r is None,
{
    if b.len() != 16 {
        return None;
    }
    let ghost bs = b@;
    let arr: [u8; 16] = vec_to_uuid_bytes(b);
    let mut acc: u128 = 0;
    let mut i: usize = 0;
    while i < 16
        invariant
            0 <= i <= 16,
            arr@ == bs,
            bs.len() == 16,
            acc == bytes_val(bs.take(i as int)),
        decreases 16 - i,
    {
        proof {
            lemma_bytes_val_bound(bs.take(i as int));
            lemma_pow256_increases((i + 1) as nat, 16);
            lemma_pow256_16();
            assert(bs.take(i + 1).drop_last() =~= bs.take(i as int));
            assert(bs.take(i + 1).last() == bs[i as int]);
            assert(acc * 256 + bs[i as int] < pow256(i as nat) * 256) by (nonlinear_arith)
                requires
                    acc < pow256(i as nat),
                    bs[i as int] < 256,
            ;
        }
        acc = acc * 256 + (arr[i] as u128);
        i = i + 1;
    }
    proof {
        assert(bs.take(16) =~= bs);
        lemma_bytes_val_bound(bs);
        lemma_pow256_16();
    }
    Some(GoalId { val: acc })
}

} // verus!
