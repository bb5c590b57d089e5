//! Runs of steps that stop at the first failure.

use vstd::prelude::*;

verus! {

/// The place of the first error among the first `n` results, or `n` where all
/// of them are `Ok`.
pub open spec fn first_err<T, E>(rs: Seq<Result<T, E>>, n: int) -> int
    decreases n,
{
    if n <= 0 {
        0
    } else {
        let k = first_err(rs, n - 1);
        if k < n - 1 {
            k
        } else if rs[n - 1] is Err {
            n - 1
        } else {
            n
        }
    }
}

/// What a run of steps gives that stops at the first failure: that failure, or
/// else every step's result, in order.
pub open spec fn collect<T, E>(rs: Seq<Result<T, E>>) -> Result<Seq<T>, E> {
    let k = first_err(rs, rs.len() as int);
    if k < rs.len() {
        Err(rs[k]->Err_0)
    } else {
        Ok(Seq::new(rs.len(), |i: int| rs[i]->Ok_0))
    }
}

/// `first_err` lies within the run looked at, points at an error where it
/// points at anything, and has only `Ok` before it.
pub proof fn lemma_first_err<T, E>(rs: Seq<Result<T, E>>, n: int)
    requires
        0 <= n <= rs.len(),
    ensures
        0 <= first_err(rs, n) <= n,
        first_err(rs, n) < n ==> rs[first_err(rs, n)] is Err,
        forall|j: int| 0 <= j < first_err(rs, n) ==> (#[trigger] rs[j]) is Ok,
    decreases n,
{
    if n > 0 {
        lemma_first_err(rs, n - 1);
    }
}

/// An error at `i` with only `Ok` before it is the first error of every run
/// that reaches it.
pub proof fn lemma_first_err_at<T, E>(rs: Seq<Result<T, E>>, i: int, n: int)
    requires
        0 <= i < n <= rs.len(),
        rs[i] is Err,
        forall|j: int| 0 <= j < i ==> (#[trigger] rs[j]) is Ok,
    ensures
        first_err(rs, n) == i,
    decreases n,
{
    lemma_first_err(rs, n - 1);
    if n - 1 > i {
        lemma_first_err_at(rs, i, n - 1);
    }
}

/// A run stopped by an error at `i`, with only `Ok` before it, gives that
/// error.
pub proof fn lemma_collect_err<T, E>(rs: Seq<Result<T, E>>, i: int)
    requires
        0 <= i < rs.len(),
        rs[i] is Err,
        forall|j: int| 0 <= j < i ==> (#[trigger] rs[j]) is Ok,
    ensures
        collect(rs) == Err::<Seq<T>, E>(rs[i]->Err_0),
{
    lemma_first_err_at(rs, i, rs.len() as int);
}

/// A run without an error gives every result, in order.
pub proof fn lemma_collect_ok<T, E>(rs: Seq<Result<T, E>>)
    requires
        forall|j: int| 0 <= j < rs.len() ==> (#[trigger] rs[j]) is Ok,
    ensures
        collect(rs) is Ok,
        collect(rs)->Ok_0.len() == rs.len(),
        forall|j: int| 0 <= j < rs.len() ==> (#[trigger] collect(rs)->Ok_0[j]) == rs[j]->Ok_0,
{
    lemma_first_err(rs, rs.len() as int);
}

/// What `collect` gives, read backwards: `Ok` only where every step is `Ok`,
/// and an error only where a step failed after none but `Ok`.
pub proof fn lemma_collect<T, E>(rs: Seq<Result<T, E>>)
    ensures
        match collect(rs) {
            Ok(vs) => vs.len() == rs.len() && forall|j: int|
                0 <= j < rs.len() ==> (#[trigger] rs[j]) == Ok::<T, E>(vs[j]),
            Err(e) => exists|i: int|
                0 <= i < rs.len() && (#[trigger] rs[i]) == Err::<T, E>(e) && forall|j: int|
                    0 <= j < i ==> (#[trigger] rs[j]) is Ok,
        },
{
    lemma_first_err(rs, rs.len() as int);
    let k = first_err(rs, rs.len() as int);
    if k < rs.len() {
        assert(rs[k] == Err::<T, E>(rs[k]->Err_0));
    } else {
        assert forall|j: int| 0 <= j < rs.len() implies (#[trigger] rs[j]) == Ok::<T, E>(
            collect(rs)->Ok_0[j],
        ) by {
            assert(rs[j] is Ok);
        }
    }
}

} // verus!
