use vstd::prelude::*;

use crate::cost::{is_finite_bits, magnitude, SIGN_BIT, NON_FINITE_FLOOR};
use crate::error::SolveError;

verus! {

/// The starting point with coordinate `i` replaced by `value`.
pub open spec fn with_coordinate(guess: Seq<u64>, i: int, value: u64) -> Seq<u64> {
    guess.update(i, value)
}

/// Whether `norm` (a binary64 bit pattern) gives the starting point a
/// direction: it is finite and not zero.
pub open spec fn is_usable_norm(norm: u64) -> bool {
    is_finite_bits(norm) && magnitude(norm) != 0
}

/// Builds the initial simplex around a starting point, with coordinates
/// given as binary64 bit patterns. `norm` is the Euclidean norm of `guess`
/// and `perturbed[i]` the value that coordinate `i` takes in the vertex
/// stepped along axis `i`. Vertex 0 is `guess` itself; vertex `i + 1` is
/// `guess` with coordinate `i` set to `perturbed[i]`, all others unchanged.
/// Fails with `InvalidInput` when `guess` is empty or `norm` is zero or not
/// finite, since the steps are taken along the normalised starting point.
pub fn initial_simplex(guess: &Vec<u64>, norm: u64, perturbed: &Vec<u64>) -> (r: Result<
    Vec<Vec<u64>>,
    SolveError,
>)
    requires
        perturbed@.len() == guess@.len(),
    ensures
        (guess@.len() > 0 && is_usable_norm(norm)) <==> r is Ok,
        r is Err ==> r->Err_0 == SolveError::InvalidInput,
        r is Ok ==> {
            let s = r->Ok_0@;
            &&& s.len() == guess@.len() + 1
            &&& s[0]@ == guess@
            &&& forall|i: int|
                0 <= i < guess@.len() ==> #[trigger] s[i + 1]@ == with_coordinate(
                    guess@,
                    i,
                    perturbed@[i],
                )
        },
{
    let mag: u64 = norm % SIGN_BIT;
    if guess.len() == 0 || mag == 0 || mag >= NON_FINITE_FLOOR {
        return Err(SolveError::InvalidInput);
    }
    let mut simplex: Vec<Vec<u64>> = Vec::new();
    simplex.push(guess.clone());
    let dim = guess.len();
    let mut i: usize = 0;
    while i < dim
        invariant
            dim == guess@.len(),
            perturbed@.len() == dim,
            i <= dim,
            simplex@.len() == i + 1,
            simplex@[0]@ == guess@,
            forall|m: int|
                0 <= m < i ==> #[trigger] simplex@[m + 1]@ == with_coordinate(
                    guess@,
                    m,
                    perturbed@[m],
                ),
        decreases dim - i,
    {
        let mut v = guess.clone();
        v.set(i, perturbed[i]);
        simplex.push(v);
        i = i + 1;
    }
    Ok(simplex)
}

} // verus!
