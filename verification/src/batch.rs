use vstd::prelude::*;

verus! {

/// How a batch run pairs its input paths with output paths.
#[derive(Clone, Copy, Debug, PartialEq, Eq, Structural)]
pub enum PairingMode {
    /// Several inputs and several outputs, but the counts differ: refused.
    OutputCountMismatch,
    /// Several inputs and at most one output: the output names are derived
    /// from the input names under the given (or current) base directory.
    DeriveFromBase,
    /// Several inputs and as many outputs: paired in order.
    ZipPairs,
    /// One input but several outputs: refused.
    TooManyOutputs,
    /// One input and at most one output.
    Single,
}

/// The pairing rule: with several inputs, several outputs must match their
/// count exactly, while at most one output names a base directory; with one
/// input, at most one output is allowed.
pub open spec fn pairing_spec(n_in: int, n_out: int) -> PairingMode {
    if n_in > 1 {
        if n_out > 1 && n_out != n_in {
            PairingMode::OutputCountMismatch
        } else if n_out < 2 {
            PairingMode::DeriveFromBase
        } else {
            PairingMode::ZipPairs
        }
    } else {
        if n_out > 1 {
            PairingMode::TooManyOutputs
        } else {
            PairingMode::Single
        }
    }
}

/// Decides how the given numbers of input and output paths are paired.
pub fn pairing_mode(n_in: usize, n_out: usize) -> (m: PairingMode)
    requires
        n_in >= 1,
    ensures
        m == pairing_spec(n_in as int, n_out as int),
{
    if n_in > 1 {
        if n_out > 1 && n_out != n_in {
            PairingMode::OutputCountMismatch
        } else if n_out < 2 {
            PairingMode::DeriveFromBase
        } else {
            PairingMode::ZipPairs
        }
    } else {
        if n_out > 1 {
            PairingMode::TooManyOutputs
        } else {
            PairingMode::Single
        }
    }
}

/// Number of failed outcomes in a batch, counted from the end.
pub open spec fn failure_count(s: Seq<bool>) -> int
    decreases s.len(),
{
    if s.len() == 0 {
        0
    } else {
        failure_count(s.drop_last()) + if s.last() {
            0int
        } else {
            1int
        }
    }
}

/// Counts the failed outcomes of a batch.
pub fn count_failures(outcomes: &Vec<bool>) -> (n: usize)
    ensures
        n == failure_count(outcomes@),
        n <= outcomes@.len(),
{
    let mut n: usize = 0;
    let mut i: usize = 0;
    while i < outcomes.len()
        invariant
            i <= outcomes@.len(),
            n == failure_count(outcomes@.subrange(0, i as int)),
            n <= i,
        decreases outcomes@.len() - i,
    {
        proof {
            assert(outcomes@.subrange(0, i + 1).drop_last() =~= outcomes@.subrange(0, i as int));
            assert(outcomes@.subrange(0, i + 1).last() == outcomes@[i as int]);
        }
        if !outcomes[i] {
            n = n + 1;
        }
        i = i + 1;
    }
    proof {
        assert(outcomes@.subrange(0, outcomes@.len() as int) =~= outcomes@);
    }
    n
}

/// A batch reports failure exactly when some job failed: the failure count
/// is zero if and only if every outcome succeeded.
pub proof fn lemma_no_failures_iff_all_succeed(s: Seq<bool>)
    ensures
        failure_count(s) >= 0,
        failure_count(s) == 0 <==> (forall|i: int| 0 <= i < s.len() ==> s[i]),
    decreases s.len(),
{
    if s.len() == 0 {
    } else {
        lemma_no_failures_iff_all_succeed(s.drop_last());
        if failure_count(s) == 0 {
            assert forall|i: int| 0 <= i < s.len() implies s[i] by {
                if i < s.len() - 1 {
                    assert(s.drop_last()[i]);
                }
            }
        }
        if forall|i: int| 0 <= i < s.len() ==> s[i] {
            assert forall|i: int| 0 <= i < s.drop_last().len() implies s.drop_last()[i] by {
                assert(s[i]);
            }
            assert(s.last());
        }
    }
}

} // verus!
