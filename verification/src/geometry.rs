//! Decision logic of the geometry-correction pass.
//!
//! The pass itself runs against an external geometry library: open the
//! regularized artifact, clear every stale physical-surface tag, then correct
//! each surface's flatness in the model's enumeration order, aborting on the
//! first surface that has no acceptable planar approximation. The geometric
//! work belongs to that library; what is decided here, and verified, is how
//! per-surface outcomes determine the verdict of the whole pass.

use vstd::prelude::*;

use crate::errors::PipelineError;

verus! {

/// The tag of the first surface whose correction failed, if any, given the
/// per-surface outcomes `(tag, corrected)` in enumeration order.
pub open spec fn first_failure(outcomes: Seq<(u64, bool)>) -> Option<u64>
    decreases outcomes.len(),
{
    if outcomes.len() == 0 {
        None
    } else if !outcomes[0].1 {
        Some(outcomes[0].0)
    } else {
        first_failure(outcomes.skip(1))
    }
}

/// There is no first failure exactly when every correction succeeded; and a
/// first failure is a failed surface that every earlier surface preceded
/// successfully.
pub proof fn lemma_first_failure(outcomes: Seq<(u64, bool)>)
    ensures
        first_failure(outcomes) is None <==> (forall|i: int|
            0 <= i < outcomes.len() ==> (#[trigger] outcomes[i]).1),
        first_failure(outcomes) matches Some(t) ==> exists|i: int|
            0 <= i < outcomes.len() && !(#[trigger] outcomes[i]).1 && outcomes[i].0 == t
                && (forall|j: int| 0 <= j < i ==> (#[trigger] outcomes[j]).1),
    decreases outcomes.len(),
{
    if outcomes.len() == 0 {
    } else if !outcomes[0].1 {
        assert(first_failure(outcomes) == Some(outcomes[0].0));
        assert(0 <= 0 < outcomes.len() && !(outcomes[0]).1 && outcomes[0].0 == outcomes[0].0 && (
        forall|j: int| 0 <= j < 0 ==> (#[trigger] outcomes[j]).1));
    } else {
        let rest = outcomes.skip(1);
        lemma_first_failure(rest);
        assert(forall|m: int| 0 <= m < rest.len() ==> #[trigger] rest[m] == outcomes[m + 1]);
        if first_failure(outcomes) is None {
            assert forall|i: int| 0 <= i < outcomes.len() implies (#[trigger] outcomes[i]).1 by {
                if i > 0 {
                    assert(outcomes[i] == rest[i - 1]);
                }
            }
        } else {
            let t = first_failure(outcomes).unwrap();
            let i = choose|i: int|
                0 <= i < rest.len() && !(#[trigger] rest[i]).1 && rest[i].0 == t && (forall|j: int|
                    0 <= j < i ==> (#[trigger] rest[j]).1);
            assert(!outcomes[i + 1].1 && outcomes[i + 1].0 == t);
            assert(forall|j: int| 0 <= j < i + 1 ==> (#[trigger] outcomes[j]).1) by {
                assert(forall|j: int| 1 <= j < i + 1 ==> outcomes[j] == rest[j - 1]);
            }
            assert(0 <= i + 1 < outcomes.len() && !(outcomes[i + 1]).1 && outcomes[i + 1].0 == t
                && (forall|j: int| 0 <= j < i + 1 ==> (#[trigger] outcomes[j]).1));
            assert(!(forall|m: int| 0 <= m < outcomes.len() ==> (#[trigger] outcomes[m]).1)) by {
                assert(!outcomes[i + 1].1);
            }
        }
    }
}

/// The verdict on one surface: success, or the tagged error that aborts the
/// whole regularization stage.
pub fn surface_step(tag: u64, corrected: bool) -> (r: Result<(), PipelineError>)
    ensures
        corrected <==> r is Ok,
        !corrected ==> r == Err::<(), PipelineError>(PipelineError::FlatnessCorrectionFailed(tag)),
{
    if corrected {
        Ok(())
    } else {
        Err(PipelineError::FlatnessCorrectionFailed(tag))
    }
}

/// The verdict of the whole pass over the per-surface outcomes in
/// enumeration order: success when every surface was corrected, otherwise
/// the error naming the first surface that could not be.
pub fn flatness_verdict(outcomes: &Vec<(u64, bool)>) -> (r: Result<(), PipelineError>)
    ensures
        r == (match first_failure(outcomes@) {
            None => Ok::<(), PipelineError>(()),
            Some(t) => Err::<(), PipelineError>(PipelineError::FlatnessCorrectionFailed(t)),
        }),
{
    let n = outcomes.len();
    let mut i: usize = 0;
    proof {
        assert(outcomes@.skip(0) =~= outcomes@);
    }
    while i < n
        invariant
            0 <= i <= n,
            n == outcomes@.len(),
            first_failure(outcomes@) == first_failure(outcomes@.skip(i as int)),
        decreases n - i,
    {
        let (tag, corrected) = outcomes[i];
        proof {
            assert(outcomes@.skip(i as int)[0] == outcomes@[i as int]);
            assert(outcomes@.skip(i as int).skip(1) =~= outcomes@.skip(i + 1));
        }
        if !corrected {
            return Err(PipelineError::FlatnessCorrectionFailed(tag));
        }
        i += 1;
    }
    proof {
        assert(outcomes@.skip(n as int) =~= Seq::<(u64, bool)>::empty());
    }
    Ok(())
}

} // verus!
