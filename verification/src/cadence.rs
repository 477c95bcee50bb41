//! Counters that fire on every n-th tick.

use vstd::prelude::*;

verus! {

/// What a cadence is: its period and the ticks counted since it last fired.
pub struct CadenceState {
    pub period: int,
    pub count: int,
}

impl CadenceState {
    /// The count stays below the period; a period under 1 counts as 1.
    pub open spec fn wf(self) -> bool {
        &&& 0 <= self.count
        &&& self.count < self.period || self.count == 0
    }

    /// A cadence of the given period that has counted nothing yet.
    pub open spec fn fresh(period: int) -> CadenceState {
        CadenceState { period, count: 0 }
    }

    /// Whether the next tick fires.
    pub open spec fn fires(self) -> bool {
        self.count + 1 >= self.period
    }

    /// The state after the next tick.
    pub open spec fn tick(self) -> CadenceState {
        CadenceState {
            period: self.period,
            count: if self.fires() {
                0
            } else {
                self.count + 1
            },
        }
    }

    /// The state after `n` ticks.
    pub open spec fn after(self, n: nat) -> CadenceState
        decreases n,
    {
        if n == 0 {
            self
        } else {
            self.after((n - 1) as nat).tick()
        }
    }
}

/// A counter that fires on every `period`-th tick.
pub struct Cadence {
    period: u32,
    count: u32,
}

impl View for Cadence {
    type V = CadenceState;

    closed spec fn view(&self) -> CadenceState {
        CadenceState { period: self.period as int, count: self.count as int }
    }
}

impl Cadence {
    /// A cadence that fires on every `period`-th tick; with a period of 0
    /// or 1, on every tick.
    pub fn new(period: u32) -> (r: Self)
        ensures
            r@ == CadenceState::fresh(period as int),
            r@.wf(),
    {
        Cadence { period, count: 0 }
    }

    /// Checks the invariant that every cadence made by `new` has and that
    /// `tick` keeps.
    pub fn is_well_formed(&self) -> (ok: bool)
        ensures
            ok == self@.wf(),
    {
        self.count < self.period || self.count == 0
    }

    /// Counts one tick and tells whether it is the one to act on.
    pub fn tick(&mut self) -> (fired: bool)
        requires
            old(self)@.wf(),
        ensures
            fired == old(self)@.fires(),
            final(self)@ == old(self)@.tick(),
            final(self)@.wf(),
    {
        if self.period <= 1 || self.count >= self.period - 1 {
            self.count = 0;
            true
        } else {
            self.count = self.count + 1;
            false
        }
    }
}

/// Counted from a fresh cadence, tick number `k` fires exactly when `k` is
/// a multiple of the period.
pub proof fn cadence_fires_on_multiples(period: int, k: nat)
    requires
        period >= 1,
        k >= 1,
    ensures
        CadenceState::fresh(period).after((k - 1) as nat).wf(),
        CadenceState::fresh(period).after((k - 1) as nat).period == period,
        CadenceState::fresh(period).after((k - 1) as nat).count == (k - 1) % period,
        CadenceState::fresh(period).after((k - 1) as nat).fires() <==> k as int % period == 0,
    decreases k,
{
    let before = CadenceState::fresh(period).after((k - 1) as nat);
    if k == 1 {
        vstd::arithmetic::div_mod::lemma_small_mod(0, period as nat);
    } else {
        cadence_fires_on_multiples(period, (k - 1) as nat);
        let earlier = CadenceState::fresh(period).after((k - 2) as nat);
        assert(before == earlier.tick());
        lemma_mod_step(k - 2, period);
    }
    lemma_mod_step(k - 1, period);
    vstd::arithmetic::div_mod::lemma_mod_bound(k - 1, period);
}

/// How a remainder moves when the number grows by one.
proof fn lemma_mod_step(x: int, m: int)
    requires
        0 <= x,
        m >= 1,
    ensures
        (x + 1) % m == if x % m + 1 == m {
            0
        } else {
            x % m + 1
        },
{
    vstd::arithmetic::div_mod::lemma_fundamental_div_mod(x, m);
    vstd::arithmetic::div_mod::lemma_mod_bound(x, m);
    if x % m + 1 == m {
        assert(x + 1 == (x / m + 1) * m + 0) by (nonlinear_arith)
            requires
                x == m * (x / m) + x % m,
                x % m + 1 == m,
        ;
        vstd::arithmetic::div_mod::lemma_fundamental_div_mod_converse(x + 1, m, x / m + 1, 0);
    } else {
        assert(x + 1 == (x / m) * m + (x % m + 1)) by (nonlinear_arith)
            requires
                x == m * (x / m) + x % m,
        ;
        vstd::arithmetic::div_mod::lemma_fundamental_div_mod_converse(
            x + 1,
            m,
            x / m,
            x % m + 1,
        );
    }
}

} // verus!
