//! Flattening fixed-size groups of values into one list.

use vstd::prelude::*;

verus! {

/// Values that can be laid out as a flat list.
pub trait Flattenable<T> {
    fn flatten(self) -> Vec<T>;
}

impl<T: Copy, const N: usize> Flattenable<T> for [T; N] {
    fn flatten(self) -> Vec<T> {
        let mut v: Vec<T> = Vec::new();
        let mut i: usize = 0;
        while i < N
            invariant
                i <= N,
            decreases N - i,
        {
            v.push(self[i]);
            i += 1;
        }
        v
    }
}

/// Concatenates the arrays in order.
pub fn flatten<T: Copy, const N: usize>(items: Vec<[T; N]>) -> (r: Vec<T>)
    ensures
        r@.len() == items@.len() * N,
        forall|i: int, j: int|
            0 <= i < items@.len() && 0 <= j < N ==> #[trigger] r@[i * N + j] == items@[i]@[j],
{
    let mut r: Vec<T> = Vec::new();
    let mut i: usize = 0;
    while i < items.len()
        invariant
            i <= items@.len(),
            r@.len() == i * N,
            forall|a: int, b: int| 0 <= a < i && 0 <= b < N ==> #[trigger] r@[a * N + b] == items@[a]@[b],
        decreases items@.len() - i,
    {
        let mut j: usize = 0;
        while j < N
            invariant
                i < items@.len(),
                j <= N,
                r@.len() == i * N + j,
                forall|a: int, b: int| 0 <= a < i && 0 <= b < N ==> #[trigger] r@[a * N + b] == items@[a]@[b],
                forall|b: int| 0 <= b < j ==> #[trigger] r@[i * N + b] == items@[i as int]@[b],
            decreases N - j,
        {
            r.push(items[i][j]);
            proof {
                assert forall|a: int, b: int| 0 <= a < i && 0 <= b < N implies #[trigger] r@[a * N + b] == items@[a]@[b] by {
                    assert(a * N + b < i * N) by (nonlinear_arith)
                        requires
                            0 <= a < i,
                            0 <= b < N,
                    ;
                }
            }
            j += 1;
        }
        proof {
            assert forall|a: int, b: int| 0 <= a < i + 1 && 0 <= b < N implies #[trigger] r@[a * N + b]
                == items@[a]@[b] by {}
            assert((i + 1) * N == i * N + N) by (nonlinear_arith);
        }
        i += 1;
    }
    r
}

} // verus!
