use vstd::prelude::*;

verus! {

/// The three most recent values of a recurrence, oldest first.
///
/// Each step computes a new value from the oldest and the newest slot and
/// shifts it in, so that the window always holds exactly three values.
pub struct SeedWindow<T> {
    seeds: [T; 3],
}

/// The whole history of a run: the starting window followed by the outputs.
pub open spec fn trace<T>(start: Seq<T>, outs: Seq<T>) -> Seq<T> {
    start + outs
}

/// Output `k` of a run is what `step` gives on the oldest and the newest
/// slot of the window that stood before it.
pub open spec fn step_holds<T, F: Fn(T, T) -> T>(
    step: F,
    start: Seq<T>,
    outs: Seq<T>,
    k: int,
) -> bool {
    step.ensures((trace(start, outs)[k], trace(start, outs)[k + 2]), outs[k])
}

/// Every output of `outs` follows from the window before it by `step`.
pub open spec fn follows<T, F: Fn(T, T) -> T>(step: F, start: Seq<T>, outs: Seq<T>) -> bool {
    forall|k: int| 0 <= k < outs.len() ==> #[trigger] step_holds(step, start, outs, k)
}

/// `step` accepts every pair of values.
pub open spec fn total<T, F: Fn(T, T) -> T>(step: F) -> bool {
    forall|a: T, b: T| #[trigger] step.requires((a, b))
}

/// `step` gives one result only for each pair of values.
pub open spec fn deterministic<T, F: Fn(T, T) -> T>(step: F) -> bool {
    forall|a: T, b: T, x: T, y: T|
        #![trigger step.ensures((a, b), x), step.ensures((a, b), y)]
        step.ensures((a, b), x) && step.ensures((a, b), y) ==> x == y
}

impl<T> View for SeedWindow<T> {
    type V = Seq<T>;

    closed spec fn view(&self) -> Seq<T> {
        self.seeds@
    }
}

impl<T: Copy> SeedWindow<T> {
    /// A window that holds the three given seeds as they are.
    pub fn new(initial_seeds: [T; 3]) -> (w: Self)
        ensures
            w@ == initial_seeds@,
    {
        SeedWindow { seeds: initial_seeds }
    }

    /// The three values of the window, oldest first.
    pub fn seeds(&self) -> (r: [T; 3])
        ensures
            r@ == self@,
    {
        self.seeds
    }

    /// Computes one value from the oldest and the newest slot, shifts the
    /// window by one and returns that value.
    pub fn advance<F: Fn(T, T) -> T>(&mut self, step: &F) -> (r: T)
        requires
            total(*step),
        ensures
            step.ensures((old(self)@[0], old(self)@[2]), r),
            final(self)@ == seq![old(self)@[1], old(self)@[2], r],
    {
        let r = step(self.seeds[0], self.seeds[2]);
        self.seeds = [self.seeds[1], self.seeds[2], r];
        proof {
            assert(self@ =~= seq![old(self)@[1], old(self)@[2], r]);
        }
        r
    }
    /// Runs `n` steps and returns their outputs in order. The window ends
    /// holding the last three values of the run's history.
    pub fn generate<F: Fn(T, T) -> T>(&mut self, n: usize, step: &F) -> (outs: Vec<T>)
        requires
            total(*step),
        ensures
            outs@.len() == n,
            follows(*step, old(self)@, outs@),
            final(self)@ == trace(old(self)@, outs@).subrange(n as int, n + 3),
    {
        let ghost start = self@;
        let mut outs: Vec<T> = Vec::new();
        let mut i: usize = 0;
        proof {
            assert(self@ =~= trace(start, outs@).subrange(0, 3));
        }
        while i < n
            invariant
                total(*step),
                start.len() == 3,
                i <= n,
                outs@.len() == i,
                follows(*step, start, outs@),
                self@ == trace(start, outs@).subrange(i as int, i + 3),
            decreases n - i,
        {
            let ghost before = outs@;
            let v = self.advance(step);
            outs.push(v);
            proof {
                let t = trace(start, outs@);
                assert(trace(start, before) =~= t.subrange(0, i + 3));
                assert forall|k: int| 0 <= k < outs@.len() implies #[trigger] step_holds(
                    *step,
                    start,
                    outs@,
                    k,
                ) by {
                    if k < i {
                        assert(step_holds(*step, start, before, k));
                    }
                }
                assert(self@ =~= t.subrange(i + 1, i + 4));
            }
            i = i + 1;
        }
        outs
    }
}

/// A run is determined by its starting window: two runs of the same length
/// from the same three seeds, under a step that gives one result for each
/// pair of values, produce the same outputs, element for element.
pub proof fn lemma_runs_agree<T, F: Fn(T, T) -> T>(
    step: F,
    start: Seq<T>,
    outs1: Seq<T>,
    outs2: Seq<T>,
)
    requires
        start.len() == 3,
        deterministic(step),
        follows(step, start, outs1),
        follows(step, start, outs2),
        outs1.len() == outs2.len(),
    ensures
        outs1 == outs2,
{
    lemma_prefix_agrees(step, start, outs1, outs2, outs1.len() as int);
    assert(outs1 =~= outs2);
}

proof fn lemma_prefix_agrees<T, F: Fn(T, T) -> T>(
    step: F,
    start: Seq<T>,
    outs1: Seq<T>,
    outs2: Seq<T>,
    m: int,
)
    requires
        start.len() == 3,
        deterministic(step),
        follows(step, start, outs1),
        follows(step, start, outs2),
        outs1.len() == outs2.len(),
        0 <= m <= outs1.len(),
    ensures
        forall|k: int| 0 <= k < m ==> outs1[k] == outs2[k],
    decreases m,
{
    if m > 0 {
        lemma_prefix_agrees(step, start, outs1, outs2, m - 1);
        let k = m - 1;
        let t1 = trace(start, outs1);
        let t2 = trace(start, outs2);
        assert(step_holds(step, start, outs1, k));
        assert(step_holds(step, start, outs2, k));
        assert(t1[k] == t2[k]);
        assert(t1[k + 2] == t2[k + 2]);
    }
}

} // verus!
