//! Random directives and their shrinking, for property-based tests.
use quickcheck::{Arbitrary, Gen};
use vstd::prelude::*;
use crate::partial::PartialOp;

verus! {

#[verifier::external_type_specification]
#[verifier::external_body]
pub struct ExGen(quickcheck::Gen);

/// Relies on quickcheck::Gen::size: the size that the generator was configured with.
pub assume_specification[ quickcheck::Gen::size ](g: &quickcheck::Gen) -> usize;

/// The values that quickcheck's shrinker for `usize` proposes for `n`, in
/// order: none for 0, else 0 and then `n - i` for `i` = `n / 2`, `n / 4`, ...
/// while `i` is positive.
pub open spec fn usize_shrinks(n: usize) -> Seq<usize> {
    if n == 0 {
        Seq::empty()
    } else {
        seq![0usize] + shrink_steps(n, n / 2)
    }
}

/// The values `n - i`, `n - i / 2`, `n - i / 4`, ... while the subtracted part is positive.
pub open spec fn shrink_steps(n: usize, i: usize) -> Seq<usize>
    decreases i,
{
    if 0 < i && i <= n {
        seq![(n - i) as usize] + shrink_steps(n, i / 2)
    } else {
        Seq::empty()
    }
}

/// Relies on quickcheck's `Arbitrary::shrink` for `usize` (its unsigned shrinker).
#[verifier::external_body]
fn shrink_usize(n: usize) -> (r: Vec<usize>)
    ensures
        r@ == usize_shrinks(n),
{
    n.shrink().collect()
}

/// Every value of `shrink_steps(n, i)` lies in `n - i .. n`.
proof fn lemma_shrink_steps_below(n: usize, i: usize)
    ensures
        forall|j: int| 0 <= j < shrink_steps(n, i).len() ==> #[trigger] shrink_steps(n, i)[j] < n,
    decreases i,
{
    if 0 < i && i <= n {
        lemma_shrink_steps_below(n, i / 2);
        let s = shrink_steps(n, i);
        assert forall|j: int| 0 <= j < s.len() implies #[trigger] s[j] < n by {
            if j > 0 {
                assert(s[j] == shrink_steps(n, i / 2)[j - 1]);
            }
        }
    }
}

/// quickcheck proposes only smaller values, and for `n > 1` at least one
/// that is positive (`n - n / 2`).
proof fn lemma_usize_shrinks(n: usize)
    ensures
        forall|j: int| 0 <= j < usize_shrinks(n).len() ==> #[trigger] usize_shrinks(n)[j] < n,
        n > 1 ==> usize_shrinks(n).len() > 1 && usize_shrinks(n)[1] > 0,
{
    if n > 0 {
        lemma_shrink_steps_below(n, n / 2);
        let s = usize_shrinks(n);
        assert forall|j: int| 0 <= j < s.len() implies #[trigger] s[j] < n by {
            if j > 0 {
                assert(s[j] == shrink_steps(n, n / 2)[j - 1]);
            }
        }
    }
}

/// Counts with a positive one among them give at least one candidate.
proof fn lemma_limited_candidates_nonempty(counts: Seq<usize>, j: int)
    requires
        0 <= j < counts.len(),
        counts[j] > 0,
    ensures
        limited_candidates(counts).len() > 0,
    decreases counts.len(),
{
    if j < counts.len() - 1 {
        assert(counts.drop_last()[j] == counts[j]);
        lemma_limited_candidates_nonempty(counts.drop_last(), j);
    }
}

/// Relies on quickcheck::Gen::choose: an item of a non-empty slice, and
/// nothing for an empty one.
#[verifier::external_body]
fn choose_from(g: &mut Gen, options: &[u8]) -> (r: Option<u8>)
    ensures
        options@.len() == 0 <==> r is None,
        r matches Some(x) ==> options@.contains(x),
{
    g.choose(options).copied()
}

/// Relies on quickcheck's `Arbitrary::arbitrary` for `usize`: some random value.
#[verifier::external_body]
fn draw_usize(g: &mut Gen) -> usize {
    usize::arbitrary(g)
}

/// The directive that a draw picks: `kind` 0 is `Pending`, 1 is `Unlimited`,
/// any other is `Limited` by a count in `1..size` (by 1 where `size` leaves no room).
pub open spec fn drawn_op(kind: u8, size: usize, draw: usize) -> PartialOp {
    if kind == 0 {
        PartialOp::Pending
    } else if kind == 1 {
        PartialOp::Unlimited
    } else if size <= 1 {
        PartialOp::Limited(1)
    } else {
        PartialOp::Limited((1 + draw % ((size - 1) as usize)) as usize)
    }
}

/// The shrink candidates for a `Limited` directive built from the counts in
/// `counts`: each nonzero count, in order, as `Limited`; zeros are left out.
pub open spec fn limited_candidates(counts: Seq<usize>) -> Seq<PartialOp>
    decreases counts.len(),
{
    if counts.len() == 0 {
        Seq::empty()
    } else {
        let rest = limited_candidates(counts.drop_last());
        if counts.last() == 0 {
            rest
        } else {
            rest.push(PartialOp::Limited(counts.last()))
        }
    }
}

/// Every candidate built from counts below `n` is `Limited` by a count in `1..n`.
pub proof fn lemma_limited_candidates_below(counts: Seq<usize>, n: usize)
    requires
        forall|i: int| 0 <= i < counts.len() ==> #[trigger] counts[i] < n,
    ensures
        forall|i: int| 0 <= i < limited_candidates(counts).len() ==>
            (#[trigger] limited_candidates(counts)[i] matches PartialOp::Limited(k) && 0 < k < n),
    decreases counts.len(),
{
    if counts.len() > 0 {
        let init = counts.drop_last();
        assert forall|i: int| 0 <= i < init.len() implies #[trigger] init[i] < n by {
            assert(init[i] == counts[i]);
        }
        lemma_limited_candidates_below(init, n);
    }
}

impl PartialOp {
    /// The directive that a draw of a kind, a generator size and a count picks.
    pub fn from_draws(kind: u8, size: usize, draw: usize) -> (op: PartialOp)
        ensures
            op == drawn_op(kind, size, draw),
    {
        if kind == 0 {
            PartialOp::Pending
        } else if kind == 1 {
            PartialOp::Unlimited
        } else if size <= 1 {
            PartialOp::Limited(1)
        } else {
            PartialOp::Limited(1 + draw % (size - 1))
        }
    }

    /// A random directive: `Pending` and `Unlimited` one time in five each,
    /// else `Limited` by a count below the generator's size.
    pub fn arbitrary(g: &mut Gen) -> (op: PartialOp)
        ensures
            op matches PartialOp::Limited(n) ==> n >= 1,
    {
        let kinds: [u8; 5] = [0, 1, 2, 3, 4];
        let kind = match choose_from(g, kinds.as_slice()) {
            Some(k) => k,
            None => 2,
        };
        let size = g.size();
        let draw = draw_usize(g);
        PartialOp::from_draws(kind, size, draw)
    }

    /// The shrink candidates for `Limited` directives with the given counts.
    pub fn limited_from_counts(counts: &Vec<usize>) -> (r: Vec<PartialOp>)
        ensures
            r@ == limited_candidates(counts@),
    {
        let mut r: Vec<PartialOp> = Vec::new();
        let mut i: usize = 0;
        while i < counts.len()
            invariant
                i <= counts@.len(),
                r@ == limited_candidates(counts@.take(i as int)),
            decreases counts@.len() - i,
        {
            let k = counts[i];
            proof {
                assert(counts@.take(i + 1).drop_last() =~= counts@.take(i as int));
            }
            if k != 0 {
                r.push(PartialOp::Limited(k));
            }
            i += 1;
        }
        proof {
            assert(counts@.take(counts@.len() as int) =~= counts@);
        }
        r
    }

    /// Simpler directives to try in place of this one when a test fails: for
    /// `Limited(n)` the smaller positive counts that quickcheck proposes for
    /// `n`, as `Limited`; nothing for `Unlimited` and `Pending`.
    pub fn shrink(&self) -> (r: Vec<PartialOp>)
        ensures
            match *self {
                PartialOp::Limited(n) => {
                    &&& r@ == limited_candidates(usize_shrinks(n))
                    &&& n > 1 ==> r@.len() > 0
                },
                _ => r@.len() == 0,
            },
            forall|i: int| 0 <= i < r@.len() ==>
                (#[trigger] r@[i] matches PartialOp::Limited(k)
                    && *self matches PartialOp::Limited(n) && 0 < k < n),
    {
        match *self {
            PartialOp::Limited(n) => {
                let counts = shrink_usize(n);
                proof {
                    lemma_usize_shrinks(n);
                    lemma_limited_candidates_below(counts@, n);
                    if n > 1 {
                        lemma_limited_candidates_nonempty(counts@, 1);
                    }
                }
                PartialOp::limited_from_counts(&counts)
            },
            _ => Vec::new(),
        }
    }
}

} // verus!
