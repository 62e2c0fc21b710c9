use vstd::prelude::*;

use crate::cost::{cost_rank, cost_ranks, is_finite_bits, rank_of, within_threshold};
use crate::error::SolveError;
use crate::ranking::{is_stable_ordering, lemma_stable_ordering_unique, permuted, reorder};

verus! {

/// The move that one round makes after the reflected point was evaluated.
#[derive(Clone, Copy, Debug, PartialEq, Eq, Structural)]
pub enum Move {
    /// The reflection beat the best vertex: try going further.
    Expand,
    /// The reflection beat the second-worst vertex: it replaces the worst.
    AcceptReflected,
    /// The reflection beat only the worst vertex: try contracting inwards.
    Contract,
    /// The reflection is no better than the worst vertex: shrink.
    Shrink,
}

/// How a run ended.
#[derive(Clone, Copy, Debug, PartialEq, Eq, Structural)]
pub enum Termination {
    /// The best cost fell inside the convergence threshold.
    Converged,
    /// The iteration budget ran out first; the best vertex is the best found.
    BudgetExhausted,
}

/// What the engine needs done next by whoever evaluates the objective and
/// computes the points.
#[derive(Clone, Copy, Debug, PartialEq, Eq, Structural)]
pub enum Request {
    /// Evaluate the objective at every vertex and hand the costs to `rank_vertices`.
    EvaluateAll,
    /// Reflect the worst vertex through the centroid of the others, evaluate
    /// it, and hand both to `after_reflection`.
    EvaluateReflection,
    /// Expand from the centroid through the reflected point, evaluate it, and
    /// hand both to `after_expansion`.
    EvaluateExpansion,
    /// Contract from the centroid towards the worst vertex, evaluate it, and
    /// hand both to `after_contraction`.
    EvaluateContraction,
    /// Move every vertex but the best halfway towards it and hand the moved
    /// vertices to `after_shrink`.
    Shrink,
    /// The run is over; the best vertex is the answer.
    Finished(Termination),
}

/// Fixed parameters of a run.
#[derive(Clone, Copy, Debug, PartialEq, Eq, Structural)]
pub struct Limits {
    /// Rounds allowed after the first before the run stops.
    pub max_iterations: usize,
    /// Rank (see `cost::rank_of`) of the convergence threshold: the run has
    /// converged once the best cost lies strictly between minus and plus it.
    pub threshold: i64,
}

/// The decision that follows a reflection, from the ranked costs of the best,
/// second-worst and worst vertices and of the reflected point. The first
/// matching case wins.
pub open spec fn move_for(best: int, second_worst: int, worst: int, reflected: int) -> Move {
    if reflected < best {
        Move::Expand
    } else if reflected < second_worst {
        Move::AcceptReflected
    } else if reflected < worst {
        Move::Contract
    } else {
        Move::Shrink
    }
}

/// Chooses the move that follows a reflection.
pub fn choose_move(best: i64, second_worst: i64, worst: i64, reflected: i64) -> (m: Move)
    ensures
        m == move_for(best as int, second_worst as int, worst as int, reflected as int),
{
    if reflected < best {
        Move::Expand
    } else if reflected < second_worst {
        Move::AcceptReflected
    } else if reflected < worst {
        Move::Contract
    } else {
        Move::Shrink
    }
}

/// Ranks of a sequence of cost bit patterns, entry by entry.
pub open spec fn ranks_of(costs: Seq<u64>) -> Seq<i64> {
    Seq::new(costs.len(), |k: int| rank_of(costs[k]) as i64)
}

/// `simplex` and `ranks` are the vertices of `before` and the ranks of their
/// `costs`, both sorted stably by ascending rank.
pub open spec fn is_ranking_of(
    before: Seq<Vec<u64>>,
    costs: Seq<u64>,
    simplex: Seq<Vec<u64>>,
    ranks: Seq<i64>,
) -> bool {
    exists|ord: Seq<usize>|
        is_stable_ordering(ranks_of(costs), ord) && ranks == permuted(ranks_of(costs), ord)
            && simplex == permuted(before, ord)
}

/// Ranking is deterministic: the same vertices with the same costs are
/// always sorted into the same simplex and the same ranks.
pub proof fn lemma_ranking_deterministic(
    before: Seq<Vec<u64>>,
    costs: Seq<u64>,
    simplex1: Seq<Vec<u64>>,
    ranks1: Seq<i64>,
    simplex2: Seq<Vec<u64>>,
    ranks2: Seq<i64>,
)
    requires
        is_ranking_of(before, costs, simplex1, ranks1),
        is_ranking_of(before, costs, simplex2, ranks2),
    ensures
        simplex1 == simplex2,
        ranks1 == ranks2,
{
    let o1 = choose|ord: Seq<usize>|
        is_stable_ordering(ranks_of(costs), ord) && ranks1 == permuted(ranks_of(costs), ord)
            && simplex1 == permuted(before, ord);
    let o2 = choose|ord: Seq<usize>|
        is_stable_ordering(ranks_of(costs), ord) && ranks2 == permuted(ranks_of(costs), ord)
            && simplex2 == permuted(before, ord);
    lemma_stable_ordering_unique(ranks_of(costs), o1, o2);
}

/// Whether every cost in the sequence is finite.
pub open spec fn all_finite(costs: Seq<u64>) -> bool {
    forall|k: int| 0 <= k < costs.len() ==> is_finite_bits(#[trigger] costs[k])
}

/// Whether a rank is that of a finite value.
pub open spec fn is_finite_rank(r: i64) -> bool {
    -0x7FF0_0000_0000_0000 < r < 0x7FF0_0000_0000_0000
}

/// What follows the end of a round in which `iterations` rounds had already
/// ended: the run stops once the budget is used up.
pub open spec fn request_after_round(iterations: usize, limits: Limits) -> Request {
    if iterations >= limits.max_iterations {
        Request::Finished(Termination::BudgetExhausted)
    } else {
        Request::EvaluateAll
    }
}

/// Iteration count after the end of a round.
pub open spec fn iterations_after_round(iterations: usize, limits: Limits) -> usize {
    if iterations >= limits.max_iterations {
        iterations
    } else {
        (iterations + 1) as usize
    }
}

/// The state of one Nelder-Mead run. Vertices and costs are binary64 values
/// held as bit patterns; costs are compared through their ranks.
pub struct Engine {
    /// The vertices; after `rank_vertices`, best first and worst last.
    pub simplex: Vec<Vec<u64>>,
    /// Ranks of the vertices' costs, as of the last `rank_vertices`.
    pub ranks: Vec<i64>,
    /// The last reflected point.
    pub reflected: Vec<u64>,
    /// Rank of the last reflected point's cost.
    pub reflected_rank: i64,
    /// Rounds that have ended so far.
    pub iterations: usize,
    /// The parameters of the run.
    pub limits: Limits,
}

impl Engine {
    /// A simplex of at least two vertices with one rank per vertex, every
    /// rank finite, and the round count within the budget.
    pub open spec fn wf(&self) -> bool {
        &&& self.simplex@.len() >= 2
        &&& self.ranks@.len() == self.simplex@.len()
        &&& forall|k: int| 0 <= k < self.ranks@.len() ==> is_finite_rank(#[trigger] self.ranks@[k])
        &&& is_finite_rank(self.reflected_rank)
        &&& self.iterations <= self.limits.max_iterations
    }

    /// Index of the worst vertex.
    pub open spec fn worst(&self) -> int {
        self.simplex@.len() - 1
    }

    /// A run over `simplex` that has not evaluated anything yet; its first
    /// request is `Request::EvaluateAll`.
    pub fn new(simplex: Vec<Vec<u64>>, limits: Limits) -> (e: Engine)
        requires
            simplex@.len() >= 2,
        ensures
            e.wf(),
            e.simplex@ == simplex@,
            e.iterations == 0,
            e.limits == limits,
            e.reflected@.len() == 0,
            e.reflected_rank == 0,
            e.ranks@ == Seq::new(simplex@.len(), |k: int| 0i64),
    {
        let n = simplex.len();
        let mut ranks: Vec<i64> = Vec::new();
        let mut k: usize = 0;
        while k < n
            invariant
                k <= n,
                ranks@.len() == k,
                forall|m: int| 0 <= m < k ==> #[trigger] ranks@[m] == 0,
            decreases n - k,
        {
            ranks.push(0);
            k = k + 1;
        }
        proof {
            assert(ranks@ =~= Seq::new(n as nat, |k: int| 0i64));
        }
        Engine { simplex, ranks, reflected: Vec::new(), reflected_rank: 0, iterations: 0, limits }
    }

    /// Ends the current round: counts it, and asks for the next or stops
    /// when the budget is used up.
    fn end_round(&mut self) -> (req: Request)
        requires
            old(self).wf(),
        ensures
            final(self).wf(),
            req == request_after_round(old(self).iterations, old(self).limits),
            final(self).iterations == iterations_after_round(old(self).iterations, old(self).limits),
            final(self).simplex == old(self).simplex,
            final(self).ranks == old(self).ranks,
            final(self).reflected == old(self).reflected,
            final(self).reflected_rank == old(self).reflected_rank,
            final(self).limits == old(self).limits,
    {
        if self.iterations >= self.limits.max_iterations {
            Request::Finished(Termination::BudgetExhausted)
        } else {
            self.iterations = self.iterations + 1;
            Request::EvaluateAll
        }
    }

    /// Takes the costs of all vertices (bit patterns, in vertex order) and
    /// sorts the vertices stably by ascending cost. Stops with
    /// `Termination::Converged` when the best cost is inside the threshold,
    /// else asks for the reflection. Fails with `EvaluationError`, changing
    /// nothing, when a cost is infinite or NaN.
    pub fn rank_vertices(&mut self, costs: &Vec<u64>) -> (r: Result<Request, SolveError>)
        requires
            old(self).wf(),
            costs@.len() == old(self).simplex@.len(),
        ensures
            final(self).wf(),
            all_finite(costs@) <==> r is Ok,
            r is Err ==> r->Err_0 == SolveError::EvaluationError && *final(self) == *old(self),
            r is Ok ==> {
                &&& is_ranking_of(old(self).simplex@, costs@, final(self).simplex@, final(self).ranks@)
                &&& r->Ok_0 == if -old(self).limits.threshold < final(self).ranks@[0]
                    < old(self).limits.threshold {
                    Request::Finished(Termination::Converged)
                } else {
                    Request::EvaluateReflection
                }
                &&& final(self).reflected == old(self).reflected
                &&& final(self).reflected_rank == old(self).reflected_rank
                &&& final(self).iterations == old(self).iterations
                &&& final(self).limits == old(self).limits
            },
    {
        let mut ranks = match cost_ranks(costs) {
            Ok(ranks) => ranks,
            Err(e) => {
                return Err(e);
            },
        };
        proof {
            assert(ranks@ =~= ranks_of(costs@));
        }
        let ghost unsorted = ranks@;
        let ord = reorder(&mut self.simplex, &mut ranks);
        proof {
            assert forall|k: int| 0 <= k < ranks@.len() implies is_finite_rank(#[trigger] ranks@[k]) by {
                assert(ranks@[k] == unsorted[ord@[k] as int]);
            }
        }
        self.ranks = ranks;
        if within_threshold(self.ranks[0], self.limits.threshold) {
            Ok(Request::Finished(Termination::Converged))
        } else {
            Ok(Request::EvaluateReflection)
        }
    }

    /// Takes the reflected point and its cost and makes the move that
    /// `move_for` chooses: the reflected point replaces the worst vertex
    /// (which ends the round), or the expansion, the contraction or a shrink
    /// is asked for. Fails with `EvaluationError`, changing nothing, when the
    /// cost is infinite or NaN.
    pub fn after_reflection(&mut self, point: Vec<u64>, cost: u64) -> (r: Result<
        Request,
        SolveError,
    >)
        requires
            old(self).wf(),
        ensures
            final(self).wf(),
            is_finite_bits(cost) <==> r is Ok,
            r is Err ==> r->Err_0 == SolveError::EvaluationError && *final(self) == *old(self),
            r is Ok ==> {
                let n = old(self).simplex@.len() as int;
                let m = move_for(
                    old(self).ranks@[0] as int,
                    old(self).ranks@[n - 2] as int,
                    old(self).ranks@[n - 1] as int,
                    rank_of(cost),
                );
                &&& final(self).ranks == old(self).ranks
                &&& final(self).limits == old(self).limits
                &&& final(self).reflected@ == point@
                &&& final(self).reflected_rank == rank_of(cost)
                &&& m == Move::AcceptReflected ==> {
                    &&& final(self).simplex@ == old(self).simplex@.update(n - 1, point)
                    &&& final(self).iterations == iterations_after_round(
                        old(self).iterations,
                        old(self).limits,
                    )
                    &&& r->Ok_0 == request_after_round(old(self).iterations, old(self).limits)
                }
                &&& m != Move::AcceptReflected ==> {
                    &&& final(self).simplex == old(self).simplex
                    &&& final(self).iterations == old(self).iterations
                    &&& r->Ok_0 == match m {
                        Move::Expand => Request::EvaluateExpansion,
                        Move::Contract => Request::EvaluateContraction,
                        _ => Request::Shrink,
                    }
                }
            },
    {
        let rank = match cost_rank(cost) {
            Ok(rank) => rank,
            Err(e) => {
                return Err(e);
            },
        };
        let n = self.simplex.len();
        let m = choose_move(self.ranks[0], self.ranks[n - 2], self.ranks[n - 1], rank);
        self.reflected = point.clone();
        self.reflected_rank = rank;
        match m {
            Move::Expand => Ok(Request::EvaluateExpansion),
            Move::AcceptReflected => {
                self.simplex.set(n - 1, point);
                Ok(self.end_round())
            },
            Move::Contract => Ok(Request::EvaluateContraction),
            Move::Shrink => Ok(Request::Shrink),
        }
    }
    /// Takes the expanded point and its cost. The expanded point replaces
    /// the worst vertex when its cost is below the reflected point's, else
    /// the reflected point does; either ends the round. Fails with
    /// `EvaluationError`, changing nothing, when the cost is infinite or NaN.
    pub fn after_expansion(&mut self, point: Vec<u64>, cost: u64) -> (r: Result<
        Request,
        SolveError,
    >)
        requires
            old(self).wf(),
        ensures
            final(self).wf(),
            is_finite_bits(cost) <==> r is Ok,
            r is Err ==> r->Err_0 == SolveError::EvaluationError && *final(self) == *old(self),
            r is Ok ==> {
                &&& final(self).simplex@.len() == old(self).simplex@.len()
                &&& forall|k: int|
                    0 <= k < old(self).worst() ==> #[trigger] final(self).simplex@[k]
                        == old(self).simplex@[k]
                &&& final(self).simplex@[old(self).worst()]@ == if rank_of(cost)
                    < old(self).reflected_rank {
                    point@
                } else {
                    old(self).reflected@
                }
                &&& final(self).iterations == iterations_after_round(
                    old(self).iterations,
                    old(self).limits,
                )
                &&& r->Ok_0 == request_after_round(old(self).iterations, old(self).limits)
                &&& final(self).ranks == old(self).ranks
                &&& final(self).reflected == old(self).reflected
                &&& final(self).reflected_rank == old(self).reflected_rank
                &&& final(self).limits == old(self).limits
            },
    {
        let rank = match cost_rank(cost) {
            Ok(rank) => rank,
            Err(e) => {
                return Err(e);
            },
        };
        let n = self.simplex.len();
        if rank < self.reflected_rank {
            self.simplex.set(n - 1, point);
        } else {
            let kept = self.reflected.clone();
            self.simplex.set(n - 1, kept);
        }
        Ok(self.end_round())
    }

    /// Takes the contracted point and its cost. The contracted point replaces
    /// the worst vertex when its cost is below the worst vertex's, which ends
    /// the round; otherwise nothing changes and a shrink is asked for. Fails
    /// with `EvaluationError`, changing nothing, when the cost is infinite or
    /// NaN.
    pub fn after_contraction(&mut self, point: Vec<u64>, cost: u64) -> (r: Result<
        Request,
        SolveError,
    >)
        requires
            old(self).wf(),
        ensures
            final(self).wf(),
            is_finite_bits(cost) <==> r is Ok,
            r is Err ==> r->Err_0 == SolveError::EvaluationError && *final(self) == *old(self),
            r is Ok && rank_of(cost) < old(self).ranks@[old(self).worst()] ==> {
                &&& final(self).simplex@ == old(self).simplex@.update(old(self).worst(), point)
                &&& final(self).iterations == iterations_after_round(
                    old(self).iterations,
                    old(self).limits,
                )
                &&& r->Ok_0 == request_after_round(old(self).iterations, old(self).limits)
                &&& final(self).ranks == old(self).ranks
                &&& final(self).reflected == old(self).reflected
                &&& final(self).reflected_rank == old(self).reflected_rank
                &&& final(self).limits == old(self).limits
            },
            r is Ok && rank_of(cost) >= old(self).ranks@[old(self).worst()] ==> {
                &&& *final(self) == *old(self)
                &&& r->Ok_0 == Request::Shrink
            },
    {
        let rank = match cost_rank(cost) {
            Ok(rank) => rank,
            Err(e) => {
                return Err(e);
            },
        };
        let n = self.simplex.len();
        if rank < self.ranks[n - 1] {
            self.simplex.set(n - 1, point);
            Ok(self.end_round())
        } else {
            Ok(Request::Shrink)
        }
    }

    /// Takes the shrunk vertices: `moved[k]` replaces vertex `k + 1`, and the
    /// best vertex stays. Ends the round.
    pub fn after_shrink(&mut self, moved: Vec<Vec<u64>>) -> (req: Request)
        requires
            old(self).wf(),
            moved@.len() + 1 == old(self).simplex@.len(),
        ensures
            final(self).wf(),
            final(self).simplex@ == seq![old(self).simplex@[0]] + moved@,
            final(self).iterations == iterations_after_round(
                old(self).iterations,
                old(self).limits,
            ),
            req == request_after_round(old(self).iterations, old(self).limits),
            final(self).ranks == old(self).ranks,
            final(self).reflected == old(self).reflected,
            final(self).reflected_rank == old(self).reflected_rank,
            final(self).limits == old(self).limits,
    {
        let mut simplex = moved;
        let best = self.simplex.remove(0);
        simplex.insert(0, best);
        let ghost first = seq![old(self).simplex@[0]];
        proof {
            assert(simplex@ =~= first + moved@);
        }
        self.simplex = simplex;
        self.end_round()
    }

    /// The best vertex: the first, as of the last ranking.
    pub fn best(&self) -> (v: Vec<u64>)
        requires
            self.wf(),
        ensures
            v@ == self.simplex@[0]@,
    {
        let v = self.simplex[0].clone();
        proof {
            assert(v@ =~= self.simplex@[0]@);
        }
        v
    }
}

} // verus!
