use vstd::prelude::*;
use vstd::string::*;

use crate::constants::DEFAULT_SUB_STEPS;

verus! {

/// The numerical integrator that advances the bodies.
#[derive(PartialEq, Eq, Structural, Clone, Copy, Debug)]
pub enum IntegrationType {
    Verlet,
    Euler,
}

impl Default for IntegrationType {
    fn default() -> (t: Self)
        ensures
            t == IntegrationType::Verlet,
    {
        IntegrationType::Verlet
    }
}

/// The name shown for an integrator.
pub open spec fn integration_name(t: IntegrationType) -> Seq<char> {
    match t {
        IntegrationType::Verlet => "Verlet"@,
        IntegrationType::Euler => "Euler"@,
    }
}

impl IntegrationType {
    /// The name shown for this integrator.
    pub fn as_str(&self) -> (res: String)
        ensures
            res@ == integration_name(*self),
    {
        match self {
            IntegrationType::Verlet => String::from_str("Verlet"),
            IntegrationType::Euler => String::from_str("Euler"),
        }
    }

    /// Every integrator, in the order they are offered.
    pub fn all() -> (v: Vec<IntegrationType>)
        ensures
            v@ == seq![IntegrationType::Verlet, IntegrationType::Euler],
    {
        vec![IntegrationType::Verlet, IntegrationType::Euler]
    }
}

/// Law: every integrator is offered exactly once, and no two integrators share a name.
pub proof fn lemma_integration_types_listed_once(t: IntegrationType, u: IntegrationType)
    ensures
        seq![IntegrationType::Verlet, IntegrationType::Euler].contains(t),
        t != u ==> integration_name(t) != integration_name(u),
{
    reveal_strlit("Verlet");
    reveal_strlit("Euler");
    let s = seq![IntegrationType::Verlet, IntegrationType::Euler];
    if t == IntegrationType::Verlet {
        assert(s[0] == t);
    } else {
        assert(s[1] == t);
    }
    if t != u {
        assert(integration_name(t).len() != integration_name(u).len());
    }
}

/// Marks the system set in which body transforms follow the integrated positions.
pub struct SimulationStep;

/// Whether the simulation is paused.
pub struct Pause(pub bool);

impl Default for Pause {
    fn default() -> (p: Self)
        ensures
            !p.0,
    {
        Pause(false)
    }
}

/// Run condition: the simulation is paused.
pub fn paused(res: &Pause) -> (b: bool)
    ensures
        b == res.0,
{
    res.0
}

/// Number of integration steps performed per rendered frame.
pub struct SubSteps(pub i32);

impl Default for SubSteps {
    /// The sub-step count a new simulation starts with.
    fn default() -> (s: Self)
        ensures
            s.0 == DEFAULT_SUB_STEPS,
    {
        SubSteps(DEFAULT_SUB_STEPS)
    }
}

impl SubSteps {

    /// Doubles the number of sub-steps.
    pub fn small_step_up(&mut self)
        requires
            old(self).0 * 2 <= i32::MAX,
            old(self).0 * 2 >= i32::MIN,
        ensures
            final(self).0 == old(self).0 * 2,
    {
        self.0 = self.0 * 2;
    }

    /// Multiplies the number of sub-steps by ten.
    pub fn big_step_up(&mut self)
        requires
            old(self).0 * 10 <= i32::MAX,
            old(self).0 * 10 >= i32::MIN,
        ensures
            final(self).0 == old(self).0 * 10,
    {
        self.0 = self.0 * 10;
    }

    /// Halves the number of sub-steps (rounding toward zero), never going below one.
    pub fn small_step_down(&mut self)
        ensures
            final(self).0 == max_int(trunc_div(old(self).0 as int, 2), 1),
    {
        let half = self.0 / 2;
        self.0 = if half > 1 { half } else { 1 };
    }

    /// Divides the number of sub-steps by ten (rounding toward zero), never going below one.
    pub fn big_step_down(&mut self)
        ensures
            final(self).0 == max_int(trunc_div(old(self).0 as int, 10), 1),
    {
        let tenth = self.0 / 10;
        self.0 = if tenth > 1 { tenth } else { 1 };
    }
}

/// Law: stepping down never leaves fewer than one sub-step.
pub proof fn lemma_step_down_at_least_one(x: int)
    ensures
        max_int(trunc_div(x, 2), 1) >= 1,
        max_int(trunc_div(x, 10), 1) >= 1,
{
}

/// Law: every step operation keeps a positive sub-step count positive
/// (the default count is positive, so the count is always at least one).
pub proof fn lemma_steps_keep_positive(x: int)
    requires
        x >= 1,
    ensures
        x * 2 >= 1,
        x * 10 >= 1,
        max_int(trunc_div(x, 2), 1) >= 1,
        max_int(trunc_div(x, 10), 1) >= 1,
        DEFAULT_SUB_STEPS >= 1,
{
}

/// Law: stepping up and then down by the same factor restores a positive count.
pub proof fn lemma_step_up_then_down(x: int)
    requires
        x >= 1,
    ensures
        max_int(trunc_div(x * 2, 2), 1) == x,
        max_int(trunc_div(x * 10, 10), 1) == x,
{
}

/// The ordered pairs `(j, i)` with `j < i < n`, in the order the gravity
/// update visits them: for each body `i`, every body before it.
pub open spec fn pair_schedule(n: nat) -> Seq<(nat, nat)>
    decreases n,
{
    if n == 0 {
        Seq::empty()
    } else {
        pair_schedule((n - 1) as nat) + Seq::new((n - 1) as nat, |j: int| (j as nat, (n - 1) as nat))
    }
}

/// The pairs of bodies whose mutual attraction one gravity update computes,
/// in the order it computes them: each body against every body before it.
pub fn interaction_pairs(count: usize) -> (pairs: Vec<(usize, usize)>)
    ensures
        pairs@.len() == pair_schedule(count as nat).len(),
        forall|k: int| 0 <= k < pairs@.len() ==>
            (#[trigger] pairs@[k]).0 as nat == pair_schedule(count as nat)[k].0
            && pairs@[k].1 as nat == pair_schedule(count as nat)[k].1,
{
    let mut pairs: Vec<(usize, usize)> = Vec::new();
    let mut i: usize = 0;
    while i < count
        invariant
            i <= count,
            pairs@.len() == pair_schedule(i as nat).len(),
            forall|k: int| 0 <= k < pairs@.len() ==>
                (#[trigger] pairs@[k]).0 as nat == pair_schedule(i as nat)[k].0
                && pairs@[k].1 as nat == pair_schedule(i as nat)[k].1,
        decreases count - i,
    {
        let ghost before = pairs@;
        let mut j: usize = 0;
        while j < i
            invariant
                j <= i,
                i < count,
                pairs@.len() == before.len() + j,
                forall|k: int| 0 <= k < before.len() ==> #[trigger] pairs@[k] == before[k],
                forall|k: int| 0 <= k < j ==> #[trigger] pairs@[before.len() + k] == (k as usize, i),
            decreases i - j,
        {
            pairs.push((j, i));
            j = j + 1;
        }
        proof {
            let next = pair_schedule((i + 1) as nat);
            assert(next == pair_schedule(i as nat) + Seq::new(i as nat, |j: int| (j as nat, i as nat)));
            assert forall|k: int| 0 <= k < pairs@.len() implies
                (#[trigger] pairs@[k]).0 as nat == next[k].0 && pairs@[k].1 as nat == next[k].1 by {
                if k < before.len() {
                } else {
                    assert(pairs@[before.len() + (k - before.len())] == ((k - before.len()) as usize, i));
                }
            }
        }
        i = i + 1;
    }
    pairs
}

/// Law: the gravity update considers every unordered pair of distinct bodies,
/// always with the earlier body first.
pub proof fn lemma_pair_schedule_complete(n: nat, a: nat, b: nat)
    requires
        a < b < n,
    ensures
        pair_schedule(n).contains((a, b)),
    decreases n,
{
    if b == n - 1 {
        let prev = pair_schedule((n - 1) as nat);
        let row = Seq::new((n - 1) as nat, |j: int| (j as nat, (n - 1) as nat));
        assert(pair_schedule(n) == prev + row);
        assert((prev + row)[prev.len() + a as int] == row[a as int]);
    } else {
        lemma_pair_schedule_complete((n - 1) as nat, a, b);
        let prev = pair_schedule((n - 1) as nat);
        let row = Seq::new((n - 1) as nat, |j: int| (j as nat, (n - 1) as nat));
        assert(pair_schedule(n) == prev + row);
        let k = choose|k: int| 0 <= k < prev.len() && prev[k] == (a, b);
        assert((prev + row)[k] == prev[k]);
    }
}

/// Law: every scheduled pair holds two distinct bodies, the earlier one first.
pub proof fn lemma_pair_schedule_ordered(n: nat, k: int)
    requires
        0 <= k < pair_schedule(n).len(),
    ensures
        pair_schedule(n)[k].0 < pair_schedule(n)[k].1 < n,
    decreases n,
{
    if n > 0 {
        let prev = pair_schedule((n - 1) as nat);
        let row = Seq::new((n - 1) as nat, |j: int| (j as nat, (n - 1) as nat));
        assert(pair_schedule(n) == prev + row);
        if k < prev.len() {
            lemma_pair_schedule_ordered((n - 1) as nat, k);
        }
    }
}

/// The larger of two integers.
pub open spec fn max_int(a: int, b: int) -> int {
    if a >= b { a } else { b }
}

/// Integer division rounding toward zero, as Rust's `/` on integers does.
pub open spec fn trunc_div(a: int, d: int) -> int
    recommends
        d > 0,
{
    if a >= 0 { a / d } else { -((-a) / d) }
}

} // verus!
