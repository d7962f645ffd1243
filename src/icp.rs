use vstd::prelude::*;
use crate::align::{sums_ok, Sum3, alignment_input, alignment_input_ok, alignment_step, alignment_step_spec, rotation_usable, AlignmentInput};
use crate::correspond::{
    below_threshold, cloud_ok, converges, mean_of, residual_total, MeanSquared, correspondences_spec, find_correspondences, fitness_spec,
    lemma_pair_sum_matches,
};
use crate::error::RegistrationError;
use crate::point::{Point, Vec3, MAX_POINTS, PLACED_LIMIT};
use crate::rotation::Quat;
use crate::transform::{compose_spec, place_spec, Transform};

verus! {

/// Limits of an ICP run.
#[derive(Debug, Clone, Copy, PartialEq, Eq, Structural)]
pub struct IcpParams {
    /// Largest number of alignment rounds.
    pub max_iterations: usize,
    /// A mean squared distance below this stops the run with success.
    pub convergence_threshold: u128,
}

/// The outcome of a solver: the transform, its fitness (the mean squared
/// distance, exactly), and whether that mean fell below the convergence
/// threshold.
#[derive(Debug, Clone, Copy, PartialEq, Eq, Structural)]
pub struct Registration {
    pub transform: Transform,
    pub fitness: MeanSquared,
    pub converged: bool,
}

/// `reg` is a well-formed transform with its true fitness, flagged as
/// converged exactly when that fitness is below `threshold`.
pub open spec fn solved(reg: Registration, source: Seq<Point>, target: Seq<Point>, threshold: u128) -> bool {
    &&& reg.transform.wf()
    &&& reg.fitness == mean_of(fitness_spec(reg.transform, source, target), source.len() as int)
    &&& reg.converged == converges(reg.fitness.total as int, source.len() as int, threshold as int)
}

/// What an ICP run asks for next.
#[derive(Debug, Clone, Copy)]
pub enum IcpStep {
    /// Decompose this cross-covariance and hand the rotation to `supply_rotation`.
    Align(AlignmentInput),
    /// The run is over.
    Done(Registration),
}

/// An ICP run as a state machine: it finds correspondences, measures the
/// residual and decides; the closed-form rotation is computed by the caller.
pub struct IcpRun {
    pub source: Vec<Point>,
    pub target: Vec<Point>,
    pub params: IcpParams,
    /// The transform accumulated so far.
    pub current: Transform,
    /// The transform of least fitness evaluated so far, with that fitness.
    pub best: Option<(Transform, u128)>,
    /// Alignment rounds done.
    pub round: usize,
    /// Coordinate sums and size of the pending alignment's pairs, between
    /// `Align` and `supply_rotation`.
    pub pending: Option<(Sum3, Sum3, u64)>,
}

/// The better of a recorded best and a new candidate; the record wins a tie.
pub open spec fn better(best: Option<(Transform, u128)>, t: Transform, f: int) -> Option<(Transform, u128)> {
    match best {
        Some(b) => if f < b.1 { Some((t, f as u128)) } else { best },
        None => Some((t, f as u128)),
    }
}

impl IcpRun {
    pub open spec fn wf(&self) -> bool {
        &&& cloud_ok(self.source@)
        &&& self.target@.len() > 0
        &&& self.current.wf()
        &&& self.round <= self.params.max_iterations
        &&& (self.best matches Some(b) ==> b.0.wf() && b.1 == fitness_spec(b.0, self.source@, self.target@))
        &&& (self.pending matches Some(p) ==> sums_ok(p.0, p.1, p.2))
    }

    /// Fitness of the transform accumulated so far.
    pub open spec fn current_fitness(&self) -> int {
        fitness_spec(self.current, self.source@, self.target@)
    }

    /// Starts a run from `seed`, or from the identity. Fails with
    /// `EmptyInput` when either cloud is empty, before any search.
    pub fn start(source: Vec<Point>, target: Vec<Point>, seed: Option<Transform>, params: IcpParams) -> (r: Result<IcpRun, RegistrationError>)
        requires
            source@.len() <= MAX_POINTS,
            seed matches Some(t) ==> t.wf(),
        ensures
            r is Err <==> (source@.len() == 0 || target@.len() == 0),
            r is Err ==> r == Err::<IcpRun, RegistrationError>(RegistrationError::EmptyInput),
            r matches Ok(run) ==> {
                &&& run.wf()
                &&& run.source@ == source@
                &&& run.target@ == target@
                &&& run.params == params
                &&& run.current == (match seed { Some(t) => t, None => Transform::identity_spec() })
                &&& run.best is None
                &&& run.round == 0
                &&& run.pending is None
            },
    {
        if source.len() == 0 || target.len() == 0 {
            return Err(RegistrationError::EmptyInput);
        }
        let current = match seed {
            Some(t) => t,
            None => Transform::identity(),
        };
        Ok(IcpRun { source, target, params, current, best: None, round: 0, pending: None })
    }

    pub fn is_waiting_for_rotation(&self) -> (r: bool)
        ensures
            r <==> self.pending is Some,
    {
        self.pending.is_some()
    }

    /// One round: matches the placed source against the target and measures
    /// the fitness. Below the threshold the run is done and has converged;
    /// after `max_iterations` rounds it is done with the best transform
    /// seen; otherwise it asks for the closed-form rotation of the pairs.
    /// The best fitness recorded never grows, and at most `max_iterations`
    /// alignments are asked for.
    pub fn next(&mut self) -> (r: IcpStep)
        requires
            old(self).wf(),
            old(self).pending is None,
        ensures
            final(self).wf(),
            final(self).source == old(self).source,
            final(self).target == old(self).target,
            final(self).params == old(self).params,
            final(self).current == old(self).current,
            final(self).best == better(old(self).best, old(self).current, old(self).current_fitness()),
            old(self).best matches Some(b) ==> final(self).best.unwrap().1 <= b.1,
            converges(old(self).current_fitness(), old(self).source@.len() as int, old(self).params.convergence_threshold as int) ==> r == IcpStep::Done(Registration {
                transform: old(self).current,
                fitness: mean_of(old(self).current_fitness(), old(self).source@.len() as int),
                converged: true,
            }),
            !converges(old(self).current_fitness(), old(self).source@.len() as int, old(self).params.convergence_threshold as int)
                && old(self).round >= old(self).params.max_iterations ==> r == IcpStep::Done(Registration {
                    transform: final(self).best.unwrap().0,
                    fitness: mean_of(final(self).best.unwrap().1 as int, old(self).source@.len() as int),
                    converged: converges(final(self).best.unwrap().1 as int, old(self).source@.len() as int, old(self).params.convergence_threshold as int),
                }),
            r is Done ==> final(self).round == old(self).round && final(self).pending is None,
            r matches IcpStep::Done(reg) ==> solved(reg, old(self).source@, old(self).target@, old(self).params.convergence_threshold),
            !converges(old(self).current_fitness(), old(self).source@.len() as int, old(self).params.convergence_threshold as int)
                && old(self).round < old(self).params.max_iterations ==> {
                &&& r matches IcpStep::Align(input)
                &&& alignment_input_ok(correspondences_spec(place_spec(old(self).current, old(self).source@), old(self).target@), input)
                &&& final(self).round == old(self).round + 1
                &&& final(self).pending == Some((input.source_sum, input.target_sum, input.count))
            },
    {
        let placed = self.current.apply_all(&self.source);
        let pairs = find_correspondences(&placed, &self.target);
        proof {
            lemma_pair_sum_matches(placed@, self.target@, placed@.len() as int);
        }
        let error = residual_total(&pairs);
        let replace = match self.best {
            Some(b) => error < b.1,
            None => true,
        };
        if replace {
            self.best = Some((self.current, error));
        }
        if below_threshold(error, self.source.len(), self.params.convergence_threshold) {
            let fitness = MeanSquared { total: error, count: self.source.len() as u64 };
            return IcpStep::Done(Registration { transform: self.current, fitness, converged: true });
        }
        if self.round >= self.params.max_iterations {
            let (t, f) = match self.best {
                Some(b) => b,
                None => (self.current, error),
            };
            let converged = below_threshold(f, self.source.len(), self.params.convergence_threshold);
            let fitness = MeanSquared { total: f, count: self.source.len() as u64 };
            return IcpStep::Done(Registration { transform: t, fitness, converged });
        }
        let input = alignment_input(&pairs);
        self.round = self.round + 1;
        self.pending = Some((input.source_sum, input.target_sum, input.count));
        IcpStep::Align(input)
    }

    /// Takes the rotation that decomposing the pending cross-covariance
    /// gave, and left-composes the resulting alignment into the current
    /// transform. A zero or out-of-range rotation is a `NumericFailure`.
    pub fn supply_rotation(&mut self, raw: Quat) -> (r: Result<(), RegistrationError>)
        requires
            old(self).wf(),
            old(self).pending is Some,
        ensures
            final(self).wf(),
            final(self).pending is None,
            final(self).source == old(self).source,
            final(self).target == old(self).target,
            final(self).params == old(self).params,
            final(self).best == old(self).best,
            final(self).round == old(self).round,
            !rotation_usable(raw) ==> r == Err::<(), RegistrationError>(RegistrationError::NumericFailure)
                && final(self).current == old(self).current,
            r is Ok ==> final(self).current == compose_spec(
                alignment_step_spec(raw, old(self).pending.unwrap().0, old(self).pending.unwrap().1, old(self).pending.unwrap().2),
                old(self).current,
            ),
            r is Err ==> r == Err::<(), RegistrationError>(RegistrationError::NumericFailure),
            r is Ok <==> rotation_usable(raw),
    {
        let (ss, st, n) = match self.pending {
            Some(p) => p,
            None => {
                return Err(RegistrationError::NumericFailure);
            },
        };
        self.pending = None;
        let inc = match alignment_step(&raw, &ss, &st, n) {
            Some(t) => t,
            None => {
                return Err(RegistrationError::NumericFailure);
            },
        };
        self.current = self.current.followed_by(&inc);
        Ok(())
    }
}

/// The starting pose: `seed`, or the identity when none is given.
pub open spec fn seed_or_identity(seed: Option<Transform>) -> Transform {
    match seed {
        Some(t) => t,
        None => Transform::identity_spec(),
    }
}

/// Iterative closest point: from `seed` (or the identity), repeatedly
/// matches the placed source against the target, stops once the mean
/// squared distance is below the threshold, and otherwise left-composes the
/// closed-form alignment of the pairs, whose rotation `decompose` computes
/// from the cross-covariance. After `max_iterations` alignments it returns
/// the best transform seen. The result is never worse than the seed; with no
/// rounds allowed, or a seed that already converges, it is the seed itself.
/// Fails with `EmptyInput` on an empty cloud, before any search, and with
/// `NumericFailure` only when `decompose` hands back no usable rotation.
pub fn iterative_closest_point<F: Fn(&AlignmentInput) -> Quat>(
    source: Vec<Point>,
    target: Vec<Point>,
    seed: Option<Transform>,
    params: IcpParams,
    decompose: F,
) -> (r: Result<Registration, RegistrationError>)
    requires
        source@.len() <= MAX_POINTS,
        seed matches Some(t) ==> t.wf(),
        forall|input: &AlignmentInput| #[trigger] decompose.requires((input,)),
    ensures
        (source@.len() == 0 || target@.len() == 0) <==> r == Err::<Registration, RegistrationError>(RegistrationError::EmptyInput),
        r is Err ==> r == Err::<Registration, RegistrationError>(RegistrationError::EmptyInput)
            || r == Err::<Registration, RegistrationError>(RegistrationError::NumericFailure),
        r matches Ok(reg) ==> solved(reg, source@, target@, params.convergence_threshold),
        r matches Ok(reg) ==> reg.fitness.total <= fitness_spec(seed_or_identity(seed), source@, target@),
        source@.len() > 0 && target@.len() > 0 && (params.max_iterations == 0 || converges(
            fitness_spec(seed_or_identity(seed), source@, target@),
            source@.len() as int,
            params.convergence_threshold as int,
        )) ==> (r matches Ok(reg) && reg.transform == seed_or_identity(seed)),
        source@.len() > 0 && target@.len() > 0
            && (forall|input: &AlignmentInput, q: Quat| #[trigger] decompose.ensures((input,), q) ==> rotation_usable(q))
            ==> r is Ok,
{
    let ghost (s, t) = (source@, target@);
    let ghost start = seed_or_identity(seed);
    let mut run = match IcpRun::start(source, target, seed, params) {
        Ok(run) => run,
        Err(e) => {
            return Err(e);
        },
    };
    loop
        invariant
            run.wf(),
            run.pending is None,
            run.source@ == s,
            run.target@ == t,
            run.params == params,
            s.len() > 0 && t.len() > 0,
            s == source@,
            t == target@,
            start == seed_or_identity(seed),
            run.round == 0 ==> run.current == start && run.best is None,
            run.round > 0 ==> !converges(fitness_spec(start, s, t), s.len() as int, params.convergence_threshold as int),
            run.round > 0 ==> run.best is Some,
            run.best matches Some(b) ==> b.1 <= fitness_spec(start, s, t),
            forall|input: &AlignmentInput| #[trigger] decompose.requires((input,)),
        decreases params.max_iterations - run.round,
    {
        let ghost before = run;
        let step = run.next();
        proof {
            let f0 = fitness_spec(start, s, t);
            if before.round == 0 {
                assert(before.current == start);
                assert(run.best.unwrap().0 == start);
            } else {
                assert(run.best.unwrap().1 <= before.best.unwrap().1);
            }
            assert(run.best matches Some(b) && b.1 <= f0);
        }
        match step {
            IcpStep::Done(reg) => {
                return Ok(reg);
            },
            IcpStep::Align(input) => {
                let q = decompose(&input);
                match run.supply_rotation(q) {
                    Ok(()) => {},
                    Err(e) => {
                        assert(!rotation_usable(q));
                        return Err(e);
                    },
                }
            },
        }
    }
}

} // verus!
