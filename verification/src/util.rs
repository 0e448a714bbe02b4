//! Small verified building blocks shared by the machine-state modules.

use vstd::prelude::*;

verus! {

/// Build a vector of `n` copies of `v`.
pub fn filled_vec<T: Copy>(n: usize, v: T) -> (r: Vec<T>)
    ensures
        r@ == Seq::new(n as nat, |i: int| v),
{
    let mut r: Vec<T> = Vec::new();
    let mut k: usize = 0;
    while k < n
        invariant
            k <= n,
            r@.len() == k,
            forall|i: int| 0 <= i < k ==> r@[i] == v,
        decreases n - k,
    {
        r.push(v);
        k = k + 1;
    }
    assert(r@ =~= Seq::new(n as nat, |i: int| v));
    r
}

/// Copy `count` bytes from `src` starting at `src_at` into `dst` starting
/// at `at`; the rest of `dst` keeps its contents.
pub fn copy_slice_into(dst: &mut Vec<u8>, at: usize, src: &Vec<u8>, src_at: usize, count: usize)
    requires
        at + count <= old(dst).len(),
        src_at + count <= src.len(),
    ensures
        final(dst).len() == old(dst).len(),
        forall|a: int|
            0 <= a < old(dst).len() ==> final(dst)@[a] == (if at <= a < at + count {
                src@[src_at + (a - at)]
            } else {
                old(dst)@[a]
            }),
{
    let mut k: usize = 0;
    while k < count
        invariant
            k <= count,
            at + count <= dst.len(),
            src_at + count <= src.len(),
            dst.len() == old(dst).len(),
            forall|a: int|
                0 <= a < dst.len() ==> dst@[a] == (if at <= a < at + k {
                    src@[src_at + (a - at)]
                } else {
                    old(dst)@[a]
                }),
        decreases count - k,
    {
        dst[at + k] = src[src_at + k];
        k = k + 1;
    }
}

} // verus!
