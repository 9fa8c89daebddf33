//! Action values over tile-coded states, and their learning. Weights, values
//! and rewards are integer billionths; the exploration rate is in millionths.

use vstd::prelude::*;

use crate::ai::tile_coding::TileCoding;
#[allow(unused_imports)]
use crate::ai::tile_coding::TABLE_SIZE;
use crate::ai::workload::count_up;
#[allow(unused_imports)]
use crate::ai::workload::counted;
use crate::arith::{clamp_i128, div_trunc};
#[allow(unused_imports)]
use crate::arith::{clamped, lower_of, magnitude, trunc_div};

verus! {

pub const NUM_ACTIONS: u8 = 10;
pub const EPSILON_START: i64 = 300_000;
pub const EPSILON_MIN: i64 = 50_000;
pub const EPSILON_DECAY_TICKS: u64 = 604_800;
/// Rewards are smaller than this.
pub const REWARD_LIMIT: i128 = 0x1_0000_0000_0000_0000_0000_0000;
pub const STATE_DIMENSIONS: usize = 34;

// ---------------------------------------------------------------------------
// Random draws
// ---------------------------------------------------------------------------

/// `fastrand::u8` over `0..n`. The range must not be empty; the draw lies in it.
/// Nothing else is known of a draw.
#[verifier::external_body]
fn draw_action(n: u8) -> (r: u8)
    requires
        n > 0,
    ensures
        r < n,
{
    fastrand::u8(0..n)
}

/// `fastrand::usize` over `0..n`. The range must not be empty; the draw lies in
/// it. Nothing else is known of a draw.
#[verifier::external_body]
fn draw_index(n: usize) -> (r: usize)
    requires
        n > 0,
    ensures
        r < n,
{
    fastrand::usize(0..n)
}

/// `fastrand::u32` over `0..n`. The range must not be empty; the draw lies in
/// it. Nothing else is known of a draw.
#[verifier::external_body]
fn draw_share(n: u32) -> (r: u32)
    requires
        n > 0,
    ensures
        r < n,
{
    fastrand::u32(0..n)
}

/// What chance decides in the selection of an action.
#[derive(Debug, Clone, Copy, PartialEq, Eq, Structural)]
pub struct Draws {
    /// Explores where it lies below the exploration rate, in millionths.
    pub share: u32,
    /// The action of an exploration.
    pub action: u8,
    /// Says which of the best actions is taken: its remainder by their number.
    pub pick: usize,
}

/// Every number of best actions divides this, so that the remainder of a draw
/// below it takes each of them with the same probability.
pub const PICKS: usize = 2520;

impl Draws {
    pub open spec fn valid(self) -> bool {
        self.share < 1_000_000 && self.action < NUM_ACTIONS && self.pick < PICKS
    }

    /// Draws everything anew.
    pub fn draw() -> (r: Self)
        ensures
            r.valid(),
    {
        Draws {
            share: draw_share(1_000_000),
            action: draw_action(NUM_ACTIONS),
            pick: draw_index(PICKS),
        }
    }
}

// ---------------------------------------------------------------------------
// Models
// ---------------------------------------------------------------------------

/// The sum of the weights at the first `n` positions.
pub open spec fn weight_sum(w: Seq<i64>, tiles: Seq<usize>, n: int) -> int
    decreases n,
{
    if n <= 0 {
        0
    } else {
        weight_sum(w, tiles, n - 1) + w[tiles[n - 1] as int]
    }
}

/// A weight moved by `delta`, within the range of its type.
pub open spec fn moved(w: i64, delta: int) -> i64 {
    clamped(w + delta, i64::MIN as int, i64::MAX as int) as i64
}

/// The weights with those at the first `n` positions moved by `delta`, once for
/// each time that a position occurs.
pub open spec fn nudged(w: Seq<i64>, tiles: Seq<usize>, n: int, delta: int) -> Seq<i64>
    decreases n,
{
    if n <= 0 {
        w
    } else {
        let p = nudged(w, tiles, n - 1, delta);
        p.update(tiles[n - 1] as int, moved(p[tiles[n - 1] as int], delta))
    }
}

/// The exploration rate after some ticks: a straight line from the start to the
/// minimum.
pub open spec fn epsilon_at(ticks: u64) -> i64 {
    (EPSILON_START - (EPSILON_START - EPSILON_MIN) * lower_of(
        ticks as int,
        EPSILON_DECAY_TICKS as int,
    ) / (EPSILON_DECAY_TICKS as int)) as i64
}

/// The step of each weight: a tenth of the error of the value against the reward
/// and 95% of the best next value, shared among the tilings and rounded towards
/// zero.
pub open spec fn step_of(q: int, reward: int, best_next: int, tilings: int) -> int {
    trunc_div(100 * reward + 95 * best_next - 100 * q, 1000 * tilings)
}

#[derive(Debug)]
pub struct QTable {
    pub weights: Vec<i64>,
    pub tile_coding: TileCoding,
    pub epsilon: i64,
    pub tick_count: u64,
}

pub struct QView {
    pub weights: Seq<i64>,
    pub tile_coding: TileCoding,
    pub epsilon: i64,
    pub tick_count: u64,
}

impl View for QTable {
    type V = QView;

    open spec fn view(&self) -> QView {
        QView {
            weights: self.weights@,
            tile_coding: self.tile_coding,
            epsilon: self.epsilon,
            tick_count: self.tick_count,
        }
    }
}

/// An empty table.
pub open spec fn fresh_table() -> QView {
    QView {
        weights: Seq::new(TABLE_SIZE as nat, |i: int| 0i64),
        tile_coding: TileCoding {
            num_tilings: 8,
            tiles_per_dim: 4,
            num_dimensions: STATE_DIMENSIONS,
            table_size: TABLE_SIZE,
        },
        epsilon: EPSILON_START,
        tick_count: 0,
    }
}

impl QView {
    /// There is a weight for every position of the coding.
    pub open spec fn wf(self) -> bool {
        &&& self.tile_coding.usable()
        &&& self.tile_coding.num_tilings > 0
        &&& self.weights.len() == self.tile_coding.table_size
    }

    /// The value of an action in a state.
    pub open spec fn q(self, state: Seq<i64>, action: u8) -> int {
        weight_sum(
            self.weights,
            self.tile_coding.tiles(state, action),
            self.tile_coding.num_tilings as int,
        )
    }

    /// Is no action better?
    pub open spec fn is_best(self, state: Seq<i64>, action: u8) -> bool {
        action < NUM_ACTIONS && forall|b: u8|
            b < NUM_ACTIONS ==> #[trigger] self.q(state, b) <= self.q(state, action)
    }

    /// The greatest value among the first `n` actions.
    pub open spec fn best_of(self, state: Seq<i64>, n: int) -> int
        decreases n,
    {
        if n <= 1 {
            self.q(state, 0)
        } else {
            let before = self.best_of(state, n - 1);
            let q = self.q(state, (n - 1) as u8);
            if q > before {
                q
            } else {
                before
            }
        }
    }

    /// The value of the best action in a state.
    pub open spec fn best_q(self, state: Seq<i64>) -> int {
        self.best_of(state, NUM_ACTIONS as int)
    }

    /// The table after a selection: one more tick, and the exploration rate of
    /// that tick.
    pub open spec fn ticked(self) -> QView {
        QView {
            tick_count: counted(self.tick_count),
            epsilon: epsilon_at(counted(self.tick_count)),
            ..self
        }
    }

    /// The step that a transition calls for.
    pub open spec fn step(self, state: Seq<i64>, action: u8, reward: int, next: Seq<i64>) -> int {
        step_of(
            self.q(state, action),
            reward,
            self.best_q(next),
            self.tile_coding.num_tilings as int,
        )
    }

    /// The table after learning from a transition.
    pub open spec fn learned(self, state: Seq<i64>, action: u8, reward: int, next: Seq<i64>) -> QView {
        QView {
            weights: nudged(
                self.weights,
                self.tile_coding.tiles(state, action),
                self.tile_coding.num_tilings as int,
                self.step(state, action, reward, next),
            ),
            ..self
        }
    }
}

/// The action that some draws lead to: `random` where the exploration draw falls
/// below the rate, else the best action that was picked.
pub open spec fn chosen(epsilon: i64, draw: u32, random: u8, best: Seq<u8>, pick: int) -> u8 {
    if draw < epsilon {
        random
    } else {
        best[pick]
    }
}

/// The best actions among the first `n`, in order.
pub open spec fn best_among(t: QView, state: Seq<i64>, n: int) -> Seq<u8>
    decreases n,
{
    if n <= 0 {
        Seq::empty()
    } else if t.is_best(state, (n - 1) as u8) {
        best_among(t, state, n - 1).push((n - 1) as u8)
    } else {
        best_among(t, state, n - 1)
    }
}

/// The best actions in a state, in order.
pub open spec fn best_seq(t: QView, state: Seq<i64>) -> Seq<u8> {
    best_among(t, state, NUM_ACTIONS as int)
}

/// The action that a table proposes in a state: a drawn one where it explores,
/// else one of those that it values most.
pub open spec fn proposal_of(t: QView, state: Seq<i64>, d: Draws) -> u8 {
    chosen(
        t.ticked().epsilon,
        d.share,
        d.action,
        best_seq(t, state),
        d.pick as int % best_seq(t, state).len() as int,
    )
}

proof fn lemma_best_among(t: QView, state: Seq<i64>, n: int)
    requires
        0 <= n <= NUM_ACTIONS,
    ensures
        best_among(t, state, n).len() <= n,
        forall|i: int|
            0 <= i < best_among(t, state, n).len() ==> (#[trigger] best_among(t, state, n)[i]) < n
                && t.is_best(state, best_among(t, state, n)[i]),
        forall|i: int, j: int|
            0 <= i < j < best_among(t, state, n).len() ==> best_among(t, state, n)[i]
                < best_among(t, state, n)[j],
        forall|a: u8|
            a < n && #[trigger] t.is_best(state, a) ==> best_among(t, state, n).contains(a),
    decreases n,
{
    if n > 0 {
        lemma_best_among(t, state, n - 1);
        let before = best_among(t, state, n - 1);
        let after = best_among(t, state, n);
        assert forall|a: u8| a < n && #[trigger] t.is_best(state, a) implies after.contains(a) by {
            if a < n - 1 {
                assert(before.contains(a));
                let k = choose|k: int| 0 <= k < before.len() && before[k] == a;
                assert(after[k] == a);
            } else {
                assert(a == (n - 1) as u8);
                assert(after.last() == a);
            }
        }
    }
}

/// The best actions of a state are those that no action is better than; there is
/// at least one.
pub proof fn law_best_actions(t: QView, state: Seq<i64>)
    ensures
        0 < best_seq(t, state).len() <= NUM_ACTIONS,
        forall|a: u8| #[trigger] best_seq(t, state).contains(a) <==> t.is_best(state, a),
        forall|i: int, j: int|
            0 <= i < j < best_seq(t, state).len() ==> best_seq(t, state)[i] < best_seq(t, state)[j],
{
    let b = best_seq(t, state);
    lemma_best_among(t, state, NUM_ACTIONS as int);
    lemma_best_of(t, state, NUM_ACTIONS as int);
    let w = choose|w: u8|
        w < NUM_ACTIONS && #[trigger] t.q(state, w) == t.best_of(state, NUM_ACTIONS as int);
    assert(t.is_best(state, w));
    assert(b.contains(w));
    assert forall|a: u8| #[trigger] b.contains(a) implies t.is_best(state, a) by {
        let k = choose|k: int| 0 <= k < b.len() && b[k] == a;
        assert(t.is_best(state, b[k]));
    }
}

/// Without exploration a table proposes an action that it values most; where it
/// explores, the drawn one.
pub proof fn law_proposals_follow_the_table(t: QView, state: Seq<i64>, d: Draws)
    requires
        d.valid(),
    ensures
        d.share >= t.ticked().epsilon ==> t.is_best(state, proposal_of(t, state, d)),
        d.share < t.ticked().epsilon ==> proposal_of(t, state, d) == d.action,
        proposal_of(t, state, d) < NUM_ACTIONS,
{
    law_best_actions(t, state);
    let b = best_seq(t, state);
    let k = d.pick as int % b.len() as int;
    assert(b.contains(b[k]));
}

proof fn lemma_best_of(t: QView, state: Seq<i64>, n: int)
    requires
        1 <= n <= NUM_ACTIONS,
    ensures
        forall|b: u8| b < n ==> #[trigger] t.q(state, b) <= t.best_of(state, n),
        exists|b: u8| b < n && #[trigger] t.q(state, b) == t.best_of(state, n),
    decreases n,
{
    if n > 1 {
        lemma_best_of(t, state, n - 1);
        let before = t.best_of(state, n - 1);
        let q = t.q(state, (n - 1) as u8);
        assert forall|b: u8| b < n implies #[trigger] t.q(state, b) <= t.best_of(state, n) by {
            if b == n - 1 {
                assert(b == (n - 1) as u8);
            }
        }
        if q > before {
            assert(t.q(state, (n - 1) as u8) == t.best_of(state, n));
        } else {
            let w = choose|b: u8| b < n - 1 && #[trigger] t.q(state, b) == before;
            assert(w < n && t.q(state, w) == t.best_of(state, n));
        }
    } else {
        assert(t.q(state, 0u8) == t.best_of(state, n));
    }
}

proof fn lemma_best_means_top(t: QView, state: Seq<i64>, a: u8)
    requires
        a < NUM_ACTIONS,
    ensures
        t.is_best(state, a) <==> t.q(state, a) == t.best_q(state),
{
    lemma_best_of(t, state, NUM_ACTIONS as int);
    let w = choose|w: u8|
        w < NUM_ACTIONS && #[trigger] t.q(state, w) == t.best_of(state, NUM_ACTIONS as int);
    if t.is_best(state, a) {
        assert(t.q(state, w) <= t.q(state, a));
    }
}

impl QTable {
    pub fn new() -> (r: Self)
        ensures
            r@ == fresh_table(),
            r@.wf(),
    {
        let tile_coding = TileCoding::new(8, 4, STATE_DIMENSIONS);
        let weights: Vec<i64> = vec![0i64; TABLE_SIZE];
        assert(weights@ =~= Seq::new(TABLE_SIZE as nat, |i: int| 0i64));
        QTable { weights, tile_coding, epsilon: EPSILON_START, tick_count: 0 }
    }

    /// Starts a selection: counts the tick and lowers the exploration rate.
    fn begin_selection(&mut self)
        ensures
            final(self)@ == old(self)@.ticked(),
    {
        self.tick_count = count_up(self.tick_count);
        self.decay_epsilon();
    }

    /// The action that some draws lead to.
    pub fn choice(epsilon: i64, draw: u32, random: u8, best: &Vec<u8>, pick: usize) -> (r: u8)
        requires
            pick < best@.len(),
        ensures
            r == chosen(epsilon, draw, random, best@, pick as int),
    {
        if (draw as i64) < epsilon {
            random
        } else {
            best[pick]
        }
    }

    /// Selects an action from drawn values.
    pub fn select_with(&mut self, state: &Vec<i64>, draw: u32, random: u8, pick: usize) -> (r: u8)
        requires
            old(self)@.wf(),
            random < NUM_ACTIONS,
            pick < best_seq(old(self)@, state@).len(),
        ensures
            final(self)@ == old(self)@.ticked(),
            r == chosen(
                old(self)@.ticked().epsilon,
                draw,
                random,
                best_seq(old(self)@, state@),
                pick as int,
            ),
            r < NUM_ACTIONS,
    {
        let best = self.best_actions(state);
        proof {
            law_best_actions(self@, state@);
            assert(best@.contains(best@[pick as int]));
        }
        self.begin_selection();
        Self::choice(self.epsilon, draw, random, &best, pick)
    }

    /// Selects an action from what chance decides.
    pub fn select_drawn(&mut self, state: &Vec<i64>, draws: &Draws) -> (r: u8)
        requires
            old(self)@.wf(),
            draws.valid(),
        ensures
            final(self)@ == old(self)@.ticked(),
            r == proposal_of(old(self)@, state@, *draws),
            r < NUM_ACTIONS,
    {
        let best: usize = self.best_actions(state).len();
        proof {
            law_best_actions(self@, state@);
        }
        self.select_with(state, draws.share, draws.action, draws.pick % best)
    }

    /// Selects an action: with the probability of the exploration rate any
    /// action, else one of the best.
    pub fn select_action(&mut self, state: &Vec<i64>) -> (r: u8)
        requires
            old(self)@.wf(),
        ensures
            final(self)@ == old(self)@.ticked(),
            exists|d: Draws| d.valid() && r == #[trigger] proposal_of(old(self)@, state@, d),
            r < NUM_ACTIONS,
    {
        let draws = Draws::draw();
        self.select_drawn(state, &draws)
    }

    /// The actions with the greatest value, in order.
    pub fn best_actions(&self, state: &Vec<i64>) -> (r: Vec<u8>)
        requires
            self@.wf(),
        ensures
            r@ == best_seq(self@, state@),
            0 < r@.len() <= NUM_ACTIONS,
    {
        let mut values: Vec<i128> = Vec::new();
        let mut action: u8 = 0;
        while action < NUM_ACTIONS
            invariant
                self@.wf(),
                action <= NUM_ACTIONS,
                values@.len() == action,
                forall|a: u8| a < action ==> values@[a as int] == #[trigger] self@.q(state@, a),
            decreases NUM_ACTIONS - action,
        {
            values.push(self.get_q_value(state, action));
            action += 1;
        }
        let mut top: i128 = values[0];
        let mut action: u8 = 1;
        while action < NUM_ACTIONS
            invariant
                1 <= action <= NUM_ACTIONS,
                values@.len() == NUM_ACTIONS,
                forall|a: u8|
                    a < NUM_ACTIONS ==> values@[a as int] == #[trigger] self@.q(state@, a),
                top == self@.best_of(state@, action as int),
            decreases NUM_ACTIONS - action,
        {
            assert(values@[action as int] == self@.q(state@, action));
            if values[action as usize] > top {
                top = values[action as usize];
            }
            action += 1;
        }
        let mut best: Vec<u8> = Vec::new();
        let mut action: u8 = 0;
        while action < NUM_ACTIONS
            invariant
                action <= NUM_ACTIONS,
                values@.len() == NUM_ACTIONS,
                forall|a: u8|
                    a < NUM_ACTIONS ==> values@[a as int] == #[trigger] self@.q(state@, a),
                top == self@.best_q(state@),
                best@ == best_among(self@, state@, action as int),
            decreases NUM_ACTIONS - action,
        {
            proof {
                lemma_best_means_top(self@, state@, action);
                assert(values@[action as int] == self@.q(state@, action));
            }
            if values[action as usize] == top {
                best.push(action);
            }
            action += 1;
        }
        proof {
            law_best_actions(self@, state@);
        }
        best
    }

    /// One of the best actions in a state.
    pub fn greedy_action(&self, state: &Vec<i64>) -> (r: u8)
        requires
            self@.wf(),
        ensures
            self@.is_best(state@, r),
    {
        let best = self.best_actions(state);
        let pick: usize = draw_index(best.len());
        proof {
            law_best_actions(self@, state@);
            assert(best@.contains(best@[pick as int]));
        }
        best[pick]
    }

    /// The value of an action in a state.
    pub fn get_q_value(&self, state: &Vec<i64>, action: u8) -> (r: i128)
        requires
            self@.wf(),
        ensures
            r == self@.q(state@, action),
            -0x8000_0000_0000_0000 * 0x1_0000_0000 <= r <= 0x8000_0000_0000_0000 * 0x1_0000_0000,
    {
        let tiles = self.tile_coding.get_tiles(state, action);
        let mut sum: i128 = 0;
        let mut i: usize = 0;
        while i < tiles.len()
            invariant
                i <= tiles@.len(),
                tiles@.len() <= u32::MAX,
                self@.wf(),
                forall|k: int|
                    0 <= k < tiles@.len() ==> #[trigger] tiles@[k] < self.tile_coding.table_size,
                sum == weight_sum(self.weights@, tiles@, i as int),
                -0x8000_0000_0000_0000 * i <= sum <= 0x8000_0000_0000_0000 * i,
            decreases tiles@.len() - i,
        {
            sum = sum + self.weights[tiles[i]] as i128;
            i += 1;
        }
        sum
    }

    /// Learns from a transition.
    pub fn update(&mut self, state: &Vec<i64>, action: u8, reward: i128, next_state: &Vec<i64>)
        requires
            old(self)@.wf(),
            magnitude(reward as int) < REWARD_LIMIT,
        ensures
            final(self)@ == old(self)@.learned(state@, action, reward as int, next_state@),
            final(self)@.wf(),
    {
        let ghost before = self@;
        let current: i128 = self.get_q_value(state, action);
        let best_next: i128 = self.best_q_value(next_state);
        let tiles = self.tile_coding.get_tiles(state, action);
        let error: i128 = 100 * reward + 95 * best_next - 100 * current;
        let delta: i128 = div_trunc(error, 1000 * (self.tile_coding.num_tilings as i128));
        let mut i: usize = 0;
        while i < tiles.len()
            invariant
                i <= tiles@.len(),
                before.wf(),
                before.tile_coding == self.tile_coding,
                forall|k: int|
                    0 <= k < tiles@.len() ==> #[trigger] tiles@[k] < self.tile_coding.table_size,
                self@ == (QView {
                    weights: nudged(before.weights, tiles@, i as int, delta as int),
                    ..before
                }),
                self.weights@.len() == self.tile_coding.table_size,
                magnitude(delta as int) < 0x4000_0000_0000_0000_0000_0000_0000_0000,
            decreases tiles@.len() - i,
        {
            let t: usize = tiles[i];
            let w: i128 = self.weights[t] as i128 + delta;
            let w: i64 = clamp_i128(w, i64::MIN as i128, i64::MAX as i128) as i64;
            self.weights.set(t, w);
            i += 1;
        }
    }

    fn best_q_value(&self, state: &Vec<i64>) -> (r: i128)
        requires
            self@.wf(),
        ensures
            r == self@.best_q(state@),
            -0x8000_0000_0000_0000 * 0x1_0000_0000 <= r <= 0x8000_0000_0000_0000 * 0x1_0000_0000,
    {
        let mut best: i128 = self.get_q_value(state, 0);
        let mut action: u8 = 1;
        while action < NUM_ACTIONS
            invariant
                self@.wf(),
                1 <= action <= NUM_ACTIONS,
                best == self@.best_of(state@, action as int),
                -0x8000_0000_0000_0000 * 0x1_0000_0000 <= best <= 0x8000_0000_0000_0000
                    * 0x1_0000_0000,
            decreases NUM_ACTIONS - action,
        {
            let q: i128 = self.get_q_value(state, action);
            if q > best {
                best = q;
            }
            action += 1;
        }
        best
    }

    fn decay_epsilon(&mut self)
        ensures
            final(self)@ == (QView { epsilon: epsilon_at(old(self).tick_count), ..old(self)@ }),
    {
        let ticks: u64 = if self.tick_count < EPSILON_DECAY_TICKS {
            self.tick_count
        } else {
            EPSILON_DECAY_TICKS
        };
        let span: u64 = 250_000;
        assert(span == EPSILON_START - EPSILON_MIN);
        let drop: u64 = (span * ticks) / EPSILON_DECAY_TICKS;
        self.epsilon = EPSILON_START - drop as i64;
    }

    pub fn epsilon(&self) -> (r: i64)
        ensures
            r == self@.epsilon,
    {
        self.epsilon
    }

    pub fn weights(&self) -> (r: &Vec<i64>)
        ensures
            r@ == self@.weights,
    {
        &self.weights
    }

    /// Takes over some weights, if there are as many as the table has.
    pub fn set_weights(&mut self, weights: &Vec<i64>) -> (r: Option<()>)
        ensures
            r is Some <==> weights@.len() == old(self)@.weights.len(),
            r is Some ==> final(self)@ == (QView { weights: weights@, ..old(self)@ }),
            r is None ==> final(self)@ == old(self)@,
            old(self)@.wf() ==> final(self)@.wf(),
    {
        if weights.len() != self.weights.len() {
            return None;
        }
        let copy = weights.clone();
        assert(copy@ =~= weights@);
        self.weights = copy;
        Some(())
    }
}

// ---------------------------------------------------------------------------
// Laws
// ---------------------------------------------------------------------------

/// The exploration rate starts at 30%, ends at 5% and never rises.
pub proof fn law_epsilon_decays(a: u64, b: u64)
    requires
        a <= b,
    ensures
        epsilon_at(0) == EPSILON_START,
        b >= EPSILON_DECAY_TICKS ==> epsilon_at(b) == EPSILON_MIN,
        EPSILON_MIN <= epsilon_at(b) <= epsilon_at(a) <= EPSILON_START,
{
}

proof fn lemma_nudged(w: Seq<i64>, tiles: Seq<usize>, n: int, delta: int)
    requires
        0 <= n <= tiles.len(),
        forall|k: int| 0 <= k < tiles.len() ==> #[trigger] tiles[k] < w.len(),
    ensures
        nudged(w, tiles, n, delta).len() == w.len(),
        forall|p: int|
            0 <= p < w.len() && (forall|k: int| 0 <= k < n ==> #[trigger] tiles[k] != p)
                ==> #[trigger] nudged(w, tiles, n, delta)[p] == w[p],
    decreases n,
{
    if n > 0 {
        lemma_nudged(w, tiles, n - 1, delta);
        let before = nudged(w, tiles, n - 1, delta);
        assert forall|p: int|
            0 <= p < w.len() && (forall|k: int|
                0 <= k < n ==> #[trigger] tiles[k] != p) implies #[trigger] nudged(
            w,
            tiles,
            n,
            delta,
        )[p] == w[p] by {
            assert(tiles[n - 1] != p);
            assert(before[p] == w[p]);
        }
    }
}

proof fn lemma_sum_agrees(w: Seq<i64>, v: Seq<i64>, tiles: Seq<usize>, n: int)
    requires
        0 <= n <= tiles.len(),
        forall|k: int| 0 <= k < n ==> w[#[trigger] tiles[k] as int] == v[tiles[k] as int],
    ensures
        weight_sum(w, tiles, n) == weight_sum(v, tiles, n),
    decreases n,
{
    if n > 0 {
        lemma_sum_agrees(w, v, tiles, n - 1);
    }
}

/// Learning from a transition changes the weights of its own tiles alone: a
/// state and action that share no table position keep their value.
pub proof fn law_learning_is_local(
    t: QView,
    state: Seq<i64>,
    action: u8,
    reward: int,
    next: Seq<i64>,
    other: Seq<i64>,
    b: u8,
)
    requires
        t.wf(),
        forall|i: int, j: int|
            0 <= i < t.tile_coding.num_tilings && 0 <= j < t.tile_coding.num_tilings
                ==> #[trigger] t.tile_coding.tiles(state, action)[i]
                != #[trigger] t.tile_coding.tiles(other, b)[j],
    ensures
        t.learned(state, action, reward, next).q(other, b) == t.q(other, b),
{
    let n = t.tile_coding.num_tilings as int;
    let touched = t.tile_coding.tiles(state, action);
    let read = t.tile_coding.tiles(other, b);
    let delta = t.step(state, action, reward, next);
    lemma_nudged(t.weights, touched, n, delta);
    assert forall|k: int| 0 <= k < n implies nudged(
        t.weights,
        touched,
        n,
        delta,
    )[#[trigger] read[k] as int] == t.weights[read[k] as int] by {
        assert forall|i: int| 0 <= i < n implies #[trigger] touched[i] != read[k] as int by {
            assert(t.tile_coding.tiles(state, action)[i] != t.tile_coding.tiles(other, b)[k]);
        }
    }
    lemma_sum_agrees(nudged(t.weights, touched, n, delta), t.weights, read, n);
}

proof fn lemma_sum_after(w: Seq<i64>, tiles: Seq<usize>, n: int, delta: int)
    requires
        0 <= n <= tiles.len(),
        forall|k: int| 0 <= k < tiles.len() ==> #[trigger] tiles[k] < w.len(),
        forall|i: int, j: int| 0 <= i < j < tiles.len() ==> tiles[i] != tiles[j],
        forall|k: int|
            0 <= k < tiles.len() ==> i64::MIN <= w[#[trigger] tiles[k] as int] + delta <= i64::MAX,
    ensures
        weight_sum(nudged(w, tiles, n, delta), tiles, n) == weight_sum(w, tiles, n) + n * delta,
    decreases n,
{
    if n > 0 {
        lemma_sum_after(w, tiles, n - 1, delta);
        lemma_nudged(w, tiles, n - 1, delta);
        lemma_nudged(w, tiles, n, delta);
        let before = nudged(w, tiles, n - 1, delta);
        let after = nudged(w, tiles, n, delta);
        let p = tiles[n - 1] as int;
        assert(before[p] == w[p]);
        assert(after[p] == w[p] + delta);
        lemma_sum_agrees(before, after, tiles, n - 1);
        assert(n * delta == (n - 1) * delta + delta) by (nonlinear_arith);
    } else {
        assert(0 * delta == 0);
    }
}

/// Learning moves the value of a transition towards its target, never past it,
/// where its tiles are distinct and no weight reaches the end of its range. The
/// target is the reward and 95% of the best next value, here in hundredths.
pub proof fn law_learning_approaches_target(
    t: QView,
    state: Seq<i64>,
    action: u8,
    reward: int,
    next: Seq<i64>,
)
    requires
        t.wf(),
        forall|i: int, j: int|
            0 <= i < j < t.tile_coding.num_tilings ==> t.tile_coding.tiles(state, action)[i]
                != t.tile_coding.tiles(state, action)[j],
        forall|k: int|
            0 <= k < t.tile_coding.num_tilings ==> i64::MIN <= t.weights[#[trigger] t.tile_coding.tiles(
                state,
                action,
            )[k] as int] + t.step(state, action, reward, next) <= i64::MAX,
    ensures
        ({
            let target = 100 * reward + 95 * t.best_q(next);
            let q = t.q(state, action);
            let after = t.learned(state, action, reward, next).q(state, action);
            if 100 * q <= target {
                q <= after && 100 * after <= target
            } else {
                after <= q && target <= 100 * after
            }
        }),
{
    let n = t.tile_coding.num_tilings as int;
    let tiles = t.tile_coding.tiles(state, action);
    let delta = t.step(state, action, reward, next);
    lemma_sum_after(t.weights, tiles, n, delta);
    let target = 100 * reward + 95 * t.best_q(next);
    let error = target - 100 * t.q(state, action);
    let m = magnitude(error);
    let d = m / (1000 * n);
    assert(0 <= d && d * (1000 * n) <= m) by (nonlinear_arith)
        requires
            m >= 0,
            n > 0,
            d == m / (1000 * n),
    ;
    assert(0 <= 100 * (n * d) <= m) by (nonlinear_arith)
        requires
            0 <= d,
            d * (1000 * n) <= m,
            n > 0,
    ;
    assert(delta == d || delta == -d);
    assert(n * delta == n * d || n * delta == -(n * d)) by (nonlinear_arith)
        requires
            delta == d || delta == -d,
    ;
    assert(error >= 0 ==> delta == d);
    assert(error < 0 ==> delta == -d);
    assert(error < 0 ==> n * delta == -(n * d)) by (nonlinear_arith)
        requires
            error < 0 ==> delta == -d,
    ;
}

/// A table that takes over the weights of another gives the same values.
pub proof fn law_weights_carry_values(t: QView, u: QView, state: Seq<i64>, action: u8)
    requires
        t.tile_coding == u.tile_coding,
    ensures
        (QView { weights: t.weights, ..u }).q(state, action) == t.q(state, action),
{
}

/// The value of an action is the sum of the weights of its tiles: where these are all
/// the same it is as many times that weight as there are tilings.
pub proof fn law_value_sums_the_weights(t: QView, state: Seq<i64>, action: u8, x: i64)
    requires
        forall|k: int|
            0 <= k < t.tile_coding.num_tilings ==> t.weights[#[trigger] t.tile_coding.tiles(
                state,
                action,
            )[k] as int] == x,
    ensures
        t.q(state, action) == t.tile_coding.num_tilings * x,
{
    lemma_constant_sum(
        t.weights,
        t.tile_coding.tiles(state, action),
        t.tile_coding.num_tilings as int,
        x,
    );
}

proof fn lemma_constant_sum(w: Seq<i64>, tiles: Seq<usize>, n: int, x: i64)
    requires
        0 <= n <= tiles.len(),
        forall|k: int| 0 <= k < n ==> w[#[trigger] tiles[k] as int] == x,
    ensures
        weight_sum(w, tiles, n) == n * x,
    decreases n,
{
    if n > 0 {
        lemma_constant_sum(w, tiles, n - 1, x);
        assert(w[tiles[n - 1] as int] == x);
        assert(n * x == (n - 1) * x + x) by (nonlinear_arith);
    } else {
        assert(0 * x == 0);
    }
}

/// Each tile counts once: a weight of one tile that is higher makes the value higher by
/// as much, where the tiles are distinct.
pub proof fn law_each_tile_counts_once(
    t: QView,
    state: Seq<i64>,
    action: u8,
    k: int,
    weight: i64,
)
    requires
        t.wf(),
        0 <= k < t.tile_coding.num_tilings,
        forall|i: int, j: int|
            0 <= i < j < t.tile_coding.num_tilings ==> t.tile_coding.tiles(state, action)[i]
                != t.tile_coding.tiles(state, action)[j],
    ensures
        ({
            let p = t.tile_coding.tiles(state, action)[k] as int;
            (QView { weights: t.weights.update(p, weight), ..t }).q(state, action) == t.q(
                state,
                action,
            ) + weight - t.weights[p]
        }),
{
    lemma_updated_sum(
        t.weights,
        t.tile_coding.tiles(state, action),
        t.tile_coding.num_tilings as int,
        k,
        weight,
    );
}

proof fn lemma_updated_sum(w: Seq<i64>, tiles: Seq<usize>, n: int, k: int, weight: i64)
    requires
        0 <= n <= tiles.len(),
        0 <= k < tiles.len(),
        forall|i: int| 0 <= i < tiles.len() ==> #[trigger] tiles[i] < w.len(),
        forall|i: int, j: int| 0 <= i < j < tiles.len() ==> tiles[i] != tiles[j],
    ensures
        weight_sum(w.update(tiles[k] as int, weight), tiles, n) == weight_sum(w, tiles, n) + if k
            < n {
            weight - w[tiles[k] as int]
        } else {
            0
        },
    decreases n,
{
    if n > 0 {
        lemma_updated_sum(w, tiles, n - 1, k, weight);
        assert(tiles[n - 1] < w.len() && tiles[k] < w.len());
        if n - 1 < k {
            assert(tiles[n - 1] != tiles[k]);
        }
        if k < n - 1 {
            assert(tiles[k] != tiles[n - 1]);
        }
    }
}

/// A fresh table values every action in every state at 0, and explores in 30% of all
/// selections.
pub proof fn law_fresh_table_knows_nothing(state: Seq<i64>, action: u8)
    ensures
        fresh_table().q(state, action) == 0,
        fresh_table().epsilon == 300_000,
        fresh_table().tick_count == 0,
        fresh_table().wf(),
{
    let t = fresh_table();
    lemma_constant_sum(t.weights, t.tile_coding.tiles(state, action), 8, 0);
    assert(8 * 0 == 0);
}

/// The best value of a state is that of an action, and no action has a greater one.
pub proof fn law_best_value_is_the_greatest(t: QView, state: Seq<i64>, action: u8)
    requires
        action < 10,
    ensures
        t.q(state, action) <= t.best_q(state),
        exists|b: u8| b < 10 && #[trigger] t.q(state, b) == t.best_q(state),
        t.is_best(state, action) <==> t.q(state, action) == t.best_q(state),
{
    lemma_best_of(t, state, 10);
    if t.is_best(state, action) {
        let b = choose|b: u8| b < 10 && #[trigger] t.q(state, b) == t.best_q(state);
        assert(t.q(state, b) <= t.q(state, action));
    }
}

/// Learning moves the value of a transition by a tenth of what it is off its target, up to
/// less than one for each tiling. The target is the reward and 95% of the greatest value
/// of the next state; here both are in hundredths.
pub proof fn law_learning_moves_a_tenth(
    t: QView,
    state: Seq<i64>,
    action: u8,
    reward: int,
    next: Seq<i64>,
    greatest: int,
)
    requires
        t.wf(),
        forall|b: u8| b < 10 ==> #[trigger] t.q(next, b) <= greatest,
        exists|b: u8| b < 10 && #[trigger] t.q(next, b) == greatest,
        forall|i: int, j: int|
            0 <= i < j < t.tile_coding.num_tilings ==> t.tile_coding.tiles(state, action)[i]
                != t.tile_coding.tiles(state, action)[j],
        forall|k: int|
            0 <= k < t.tile_coding.num_tilings ==> i64::MIN <= t.weights[#[trigger] t.tile_coding.tiles(
                state,
                action,
            )[k] as int] + t.step(state, action, reward, next) <= i64::MAX,
    ensures
        ({
            let off = 100 * reward + 95 * greatest - 100 * t.q(state, action);
            let moved = t.learned(state, action, reward, next).q(state, action) - t.q(
                state,
                action,
            );
            let rest = 1000 * t.tile_coding.num_tilings;
            if off >= 0 {
                0 <= 1000 * moved <= off < 1000 * moved + rest
            } else {
                1000 * moved - rest < off <= 1000 * moved <= 0
            }
        }),
{
    lemma_best_of(t, next, 10);
    let w = choose|b: u8| b < 10 && #[trigger] t.q(next, b) == greatest;
    let v = choose|b: u8| b < 10 && #[trigger] t.q(next, b) == t.best_q(next);
    assert(greatest == t.best_q(next));
    let n = t.tile_coding.num_tilings as int;
    let delta = t.step(state, action, reward, next);
    lemma_sum_after(t.weights, t.tile_coding.tiles(state, action), n, delta);
    let off = 100 * reward + 95 * greatest - 100 * t.q(state, action);
    crate::arith::law_truncation(off, 1000 * n);
    assert((1000 * n) * delta == 1000 * (n * delta)) by (nonlinear_arith);
}

/// The exploration rate falls from 30% to 5% on a straight line over a week of ticks.
pub proof fn law_epsilon_falls_on_a_line(ticks: u64)
    requires
        ticks <= 604_800,
    ensures
        604_800 * (300_000 - epsilon_at(ticks)) <= 250_000 * ticks,
        250_000 * ticks < 604_800 * (300_000 - epsilon_at(ticks)) + 604_800,
        EPSILON_START == 300_000,
        EPSILON_MIN == 50_000,
        EPSILON_DECAY_TICKS == 604_800,
{
}

/// A selection counts one tick, takes the exploration rate of that tick and changes no
/// weight.
pub proof fn law_selection_counts_a_tick(t: QView)
    requires
        t.tick_count < u64::MAX,
    ensures
        t.ticked().tick_count == t.tick_count + 1,
        t.ticked().epsilon == epsilon_at((t.tick_count + 1) as u64),
        t.ticked().weights == t.weights,
        t.ticked().tile_coding == t.tile_coding,
{
}

/// Where a table does not explore, every action that it values most can be picked: the
/// pick counts them in order.
pub proof fn law_every_best_action_can_be_picked(
    t: QView,
    state: Seq<i64>,
    a: u8,
    share: u32,
    action: u8,
)
    requires
        t.is_best(state, a),
        share >= t.ticked().epsilon,
    ensures
        exists|pick: usize|
            pick < 10 && #[trigger] proposal_of(t, state, Draws { share, action, pick }) == a,
{
    law_best_actions(t, state);
    let b = best_seq(t, state);
    assert(b.contains(a));
    let k = choose|k: int| 0 <= k < b.len() && b[k] == a;
    let pick = k as usize;
    vstd::arithmetic::div_mod::lemma_small_mod(k as nat, b.len());
    assert(pick as int % b.len() as int == k);
    assert(proposal_of(t, state, Draws { share, action, pick }) == a);
}

/// Learning changes the weights alone.
pub proof fn law_learning_changes_weights_alone(
    t: QView,
    state: Seq<i64>,
    action: u8,
    reward: int,
    next: Seq<i64>,
)
    ensures
        (QView { weights: t.weights, ..t.learned(state, action, reward, next) }) == t,
{
}

/// A fresh table codes states in eight tilings with four tiles along each of their dimensions,
/// and has as many weights as there are positions.
pub proof fn law_shape_of_a_fresh_table()
    ensures
        fresh_table().tile_coding.num_tilings == 8,
        fresh_table().tile_coding.tiles_per_dim == 4,
        fresh_table().tile_coding.num_dimensions == 34,
        fresh_table().tile_coding.table_size == 262_144,
        fresh_table().weights.len() == 262_144,
{
}

} // verus!
