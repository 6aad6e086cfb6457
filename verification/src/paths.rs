//! Derivation of a block's filesystem path from its reference, and the
//! fan-out guarantees of that layout.

use crate::encoding::{b32_encode, base32_encode, lemma_b32_encode_injective};
use vstd::prelude::*;

verus! {

/// The path separator, ASCII `/`.
pub const SEP: u8 = 47;

/// The two-level directory that holds a reference's block file: the
/// store root, then the first two encoded symbols, then the next two.
pub open spec fn dir_of(root: Seq<u8>, r: Seq<u8>) -> Seq<u8> {
    root + seq![SEP] + b32_encode(r).subrange(0, 2) + seq![SEP] + b32_encode(r).subrange(2, 4)
}

/// The full path of a reference's block file: its directory, then the
/// whole encoding as the file name.
pub open spec fn path_of(root: Seq<u8>, r: Seq<u8>) -> Seq<u8> {
    dir_of(root, r) + seq![SEP] + b32_encode(r)
}

/// Appends all of `src` to `dst`.
pub fn push_all(dst: &mut Vec<u8>, src: &[u8])
    ensures
        final(dst)@ == old(dst)@ + src@,
{
    let mut i: usize = 0;
    while i < src.len()
        invariant
            i <= src.len(),
            dst@ == old(dst)@ + src@.subrange(0, i as int),
        decreases src.len() - i,
    {
        dst.push(src[i]);
        proof {
            assert(dst@ =~= old(dst)@ + src@.subrange(0, i + 1));
        }
        i += 1;
    }
    proof {
        assert(dst@ =~= old(dst)@ + src@);
    }
}

/// Derives the deterministic store path of a reference:
/// `<root>/<first two symbols>/<next two symbols>/<whole encoding>`.
pub fn reference_to_path(store_root: &[u8], reference: &[u8; 32]) -> (r: Vec<u8>)
    ensures
        r@ == path_of(store_root@, reference@),
{
    let enc = base32_encode(reference.as_slice());
    proof {
        assert(enc@.len() == 52);
    }
    let mut out: Vec<u8> = Vec::new();
    push_all(&mut out, store_root);
    out.push(SEP);
    out.push(enc[0]);
    out.push(enc[1]);
    out.push(SEP);
    out.push(enc[2]);
    out.push(enc[3]);
    out.push(SEP);
    push_all(&mut out, enc.as_slice());
    proof {
        assert(b32_encode(reference@).subrange(0, 2) =~= seq![enc@[0], enc@[1]]);
        assert(b32_encode(reference@).subrange(2, 4) =~= seq![enc@[2], enc@[3]]);
        assert(out@ =~= path_of(store_root@, reference@));
    }
    out
}

/// Determinism of derivation: the derived path is a pure function of
/// the store root and the reference, so two derivations from equal
/// inputs yield one path.
pub proof fn lemma_derive_deterministic(root1: Seq<u8>, r1: Seq<u8>, root2: Seq<u8>, r2: Seq<u8>)
    requires
        root1 == root2,
        r1 == r2,
    ensures
        path_of(root1, r1) == path_of(root2, r2),
{
}

/// Fan-out of the derived layout: two references whose first four
/// encoded symbols differ land in different second-level directories;
/// two distinct references that share those symbols share the directory
/// but keep distinct file names, the file name being the whole encoding.
pub proof fn lemma_fan_out(root: Seq<u8>, r1: Seq<u8>, r2: Seq<u8>)
    requires
        r1.len() == 32,
        r2.len() == 32,
        r1 != r2,
    ensures
        b32_encode(r1).subrange(0, 4) != b32_encode(r2).subrange(0, 4) ==> dir_of(root, r1)
            != dir_of(root, r2),
        b32_encode(r1).subrange(0, 4) == b32_encode(r2).subrange(0, 4) ==> dir_of(root, r1)
            == dir_of(root, r2) && b32_encode(r1) != b32_encode(r2),
{
    let e1 = b32_encode(r1);
    let e2 = b32_encode(r2);
    assert(e1.len() == 52 && e2.len() == 52);
    if e1 == e2 {
        lemma_b32_encode_injective(r1, r2);
    }
    assert(e1 != e2);
    if dir_of(root, r1) == dir_of(root, r2) {
        let d1 = dir_of(root, r1);
        let d2 = dir_of(root, r2);
        let base = root.len() as int;
        assert forall|k: int| 0 <= k < 4 implies e1[k] == e2[k] by {
            if k < 2 {
                assert(d1[base + 1 + k] == e1[k]);
                assert(d2[base + 1 + k] == e2[k]);
            } else {
                assert(d1[base + 2 + k] == e1[k]);
                assert(d2[base + 2 + k] == e2[k]);
            }
        }
        assert(e1.subrange(0, 4) =~= e2.subrange(0, 4));
    }
    if e1.subrange(0, 4) == e2.subrange(0, 4) {
        assert forall|k: int| 0 <= k < 2 implies e1.subrange(0, 2)[k] == e2.subrange(0, 2)[k] by {
            assert(e1.subrange(0, 4)[k] == e2.subrange(0, 4)[k]);
        }
        assert forall|k: int| 0 <= k < 2 implies e1.subrange(2, 4)[k] == e2.subrange(2, 4)[k] by {
            assert(e1.subrange(0, 4)[k + 2] == e2.subrange(0, 4)[k + 2]);
        }
        assert(e1.subrange(0, 2) =~= e2.subrange(0, 2));
        assert(e1.subrange(2, 4) =~= e2.subrange(2, 4));
        assert(dir_of(root, r1) == dir_of(root, r2));
    }
}

} // verus!
