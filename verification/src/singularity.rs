//! The decision engine: one wave substrate, four neuromodulator nodes, a
//! homeostatic regulator and a knowledge base, combined into action
//! selection, multi-step credit assignment and persistence bookkeeping.

use vstd::prelude::*;
use crate::fx::{
    fx_add, fx_add_spec, fx_sub, fx_sub_spec, fx_mul, fx_mul_spec, fx_div_spec, fx_min,
    fx_min_spec, fx_max, fx_max_spec, fx_clamp, fx_clamp_spec, fx_abs, fx_abs_spec, FX_ONE,
    FX_HALF,
};
use crate::horizon::{Horizon, total_activity_spec, inhibit_fold_spec};
use crate::knowledge::{Bootstrapper, HamiltonianRule, resonance_at_spec};
use crate::mwso::{
    MWSO, WavePicture, picture_of, noise_fold_spec, scores_fold_spec, align_fold, rhyd_acc_spec,
    scale_in_place, scaled_spec,
};
use crate::node::{Node, Synapse, node_inhibit_spec};

verus! {

/// One remembered decision: the perceived state and the actions chosen for
/// it, used for multi-step credit assignment.
#[derive(Clone, Debug)]
pub struct Experience {
    pub state_idx: usize,
    pub actions: Vec<usize>,
}

/// Sum of the first `n` category sizes.
pub open spec fn sum_sizes(s: Seq<usize>, n: int) -> int
    decreases n,
{
    if n <= 0 {
        0
    } else {
        sum_sizes(s, n - 1) + s[n - 1]
    }
}

/// Partial sums never exceed the total when all summands are nonnegative.
pub proof fn lemma_sum_sizes_monotone(s: Seq<usize>, i: int, n: int)
    requires
        0 <= i <= n <= s.len(),
    ensures
        sum_sizes(s, i) <= sum_sizes(s, n),
    decreases n - i,
{
    if i < n {
        lemma_sum_sizes_monotone(s, i, n - 1);
    }
}

/// The substrate dimension grown from `d` by doubling until it covers
/// `need`.
pub open spec fn grow_dim(d: int, need: int) -> int
    decreases (if d >= need {
        0int
    } else {
        need - d
    }),
{
    if d >= need || d <= 0 {
        d
    } else {
        grow_dim(2 * d, need)
    }
}

/// The substrate dimension for a flattened action space: at least 512 and
/// at least 64 bins per action, grown in powers of two.
pub open spec fn dim_for(action_size: int) -> int {
    grow_dim(512, action_size * 64)
}

/// Growing covers the need and never shrinks.
pub proof fn lemma_grow_dim_covers(d: int, need: int)
    requires
        1 <= d,
    ensures
        grow_dim(d, need) >= d,
        grow_dim(d, need) >= need || grow_dim(d, need) == d,
        need <= grow_dim(d, need) || d >= need,
    decreases (if d >= need {
        0int
    } else {
        need - d
    }),
{
    if d < need {
        lemma_grow_dim_covers(2 * d, need);
    }
}

/// Compute the substrate dimension for an action space.
pub fn compute_dim(action_size: usize) -> (r: usize)
    requires
        1 <= action_size <= 4096,
    ensures
        r == dim_for(action_size as int),
        512 <= r <= 0x100000,
        action_size * 64 <= r,
{
    let need: usize = action_size * 64;
    let mut d: usize = 512;
    while d < need
        invariant
            512 <= d <= 0x100000,
            need <= 262144,
            grow_dim(d as int, need as int) == grow_dim(512, need as int),
        decreases (if d < need {
            need - d
        } else {
            0int
        }),
    {
        d = d * 2;
    }
    proof {
        lemma_grow_dim_covers(d as int, need as int);
    }
    d
}

/// Initial temperature (0.5).
pub const ENGINE_TEMP_INIT: i64 = 32768;

/// Sentinel for "no topology update yet" (-1.0).
pub const ENGINE_TOPOLOGY_INIT: i64 = -65536;

/// Initial exploration weight (0.1).
pub const ENGINE_EXPLORATION_BETA_INIT: i64 = 6554;

/// Leak rates of the four nodes (0.5, 0.4, 0.3, 0.3).
pub const ENGINE_DECAY_AGGRESSION: i64 = 32768;

pub const ENGINE_DECAY_FEAR: i64 = 26214;

pub const ENGINE_DECAY_TACTICAL: i64 = 19661;

pub const ENGINE_DECAY_REFLEX: i64 = 19661;

/// Bound on the number of remembered decisions.
pub const ENGINE_MAX_HISTORY: usize = 15;

/// Bound on the remembered input trail.
pub const ENGINE_MAX_INPUT_HISTORY: usize = 4;

/// The decision engine.
pub struct Singularity {
    pub nodes: Vec<Node>,
    pub horizon: Horizon,
    pub mwso: MWSO,
    pub bootstrapper: Bootstrapper,
    pub active_conditions: Vec<i32>,
    pub system_temperature: i64,
    pub last_topology_update_temp: i64,
    pub adrenaline: i64,
    pub frustration: i64,
    pub velocity_trust: i64,
    pub fatigue_map: Vec<i64>,
    pub morale: i64,
    pub patience: i64,
    pub category_sizes: Vec<usize>,
    pub action_size: usize,
    pub state_size: usize,
    pub last_actions: Vec<usize>,
    pub last_state_idx: usize,
    pub action_momentum: Vec<i64>,
    pub input_history: Vec<usize>,
    pub history: Vec<Experience>,
    pub max_history: usize,
    pub learned_rules: Vec<(usize, usize, usize)>,
    pub penalty_matrix: Vec<i64>,
    pub exploration_beta: i64,
    pub idx_aggression: usize,
    pub idx_fear: usize,
    pub idx_tactical: usize,
    pub idx_reflex: usize,
}

impl Singularity {
    /// Structural well-formedness of the engine.
    pub open spec fn wf(&self) -> bool {
        &&& self.nodes@.len() == 4
        &&& self.mwso.wf()
        &&& 1 <= self.category_sizes@.len()
        &&& forall|c: int| 0 <= c < self.category_sizes@.len() ==> 1 <= #[trigger] self.category_sizes@[c]
        &&& self.action_size == sum_sizes(self.category_sizes@, self.category_sizes@.len() as int)
        &&& 1 <= self.action_size <= 4096
        &&& self.mwso.dim == dim_for(self.action_size as int)
        &&& 512 <= self.mwso.dim
        &&& self.action_size * 64 <= self.mwso.dim
        &&& 1 <= self.state_size <= 0xffff
        &&& self.penalty_matrix@.len() == self.state_size * self.mwso.dim
        &&& self.fatigue_map@.len() == self.action_size
        &&& self.action_momentum@.len() == self.action_size
        &&& self.last_actions@.len() == self.category_sizes@.len()
        &&& forall|k: int|
            0 <= k < self.last_actions@.len() ==> #[trigger] self.last_actions@[k] < self.action_size
        &&& self.last_state_idx < self.state_size
        &&& self.input_history@.len() <= ENGINE_MAX_INPUT_HISTORY
        &&& self.history@.len() <= ENGINE_MAX_HISTORY
        &&& forall|h: int|
            0 <= h < self.history@.len() ==> (#[trigger] self.history@[h]).actions@.len()
                == self.category_sizes@.len()
        &&& forall|h: int, a: int|
            0 <= h < self.history@.len() && 0 <= a < self.history@[h].actions@.len()
                ==> (#[trigger] self.history@[h].actions@[a]) < self.action_size
        &&& forall|h: int|
            0 <= h < self.history@.len() ==> (#[trigger] self.history@[h]).state_idx
                < self.state_size
        &&& self.max_history == ENGINE_MAX_HISTORY
        &&& self.idx_aggression == 0
        &&& self.idx_fear == 1
        &&& self.idx_tactical == 2
        &&& self.idx_reflex == 3
    }

    /// Construct an engine sized from the category layout.
    pub fn new(state_size: usize, category_sizes: Vec<usize>) -> (r: Singularity)
        requires
            1 <= state_size <= 0xffff,
            1 <= category_sizes@.len(),
            forall|c: int| 0 <= c < category_sizes@.len() ==> 1 <= #[trigger] category_sizes@[c],
            1 <= sum_sizes(category_sizes@, category_sizes@.len() as int) <= 4096,
            state_size * dim_for(sum_sizes(category_sizes@, category_sizes@.len() as int))
                <= 0x4000000,
        ensures
            r.wf(),
            r.state_size == state_size,
            r.category_sizes == category_sizes,
            r.action_size == sum_sizes(category_sizes@, category_sizes@.len() as int),
            r.system_temperature == ENGINE_TEMP_INIT,
            r.last_topology_update_temp == ENGINE_TOPOLOGY_INIT,
            r.adrenaline == 0,
            r.frustration == 0,
            r.velocity_trust == FX_ONE,
            r.morale == FX_ONE,
            r.patience == FX_ONE,
            r.exploration_beta == ENGINE_EXPLORATION_BETA_INIT,
            r.horizon.glutamate_buffer == 0,
            r.horizon.homeostatic_threshold == crate::horizon::HORIZON_THRESHOLD,
            r.nodes@.len() == 4,
            r.nodes@[0].state == 0 && r.nodes@[0].base_decay == ENGINE_DECAY_AGGRESSION
                && r.nodes@[0].synapses@.len() == 0,
            r.nodes@[1].state == 0 && r.nodes@[1].base_decay == ENGINE_DECAY_FEAR
                && r.nodes@[1].synapses@.len() == 0,
            r.nodes@[2].state == 0 && r.nodes@[2].base_decay == ENGINE_DECAY_TACTICAL
                && r.nodes@[2].synapses@.len() == 0,
            r.nodes@[3].state == 0 && r.nodes@[3].base_decay == ENGINE_DECAY_REFLEX
                && r.nodes@[3].synapses@.len() == 0,
            r.bootstrapper.rules@.len() == 0,
            r.active_conditions@.len() == 0,
            r.learned_rules@.len() == 0,
            r.input_history@.len() == 0,
            r.history@.len() == 0,
            r.last_state_idx == 0,
            forall|k: int| 0 <= k < r.last_actions@.len() ==> #[trigger] r.last_actions@[k] == 0,
            forall|k: int|
                0 <= k < r.fatigue_map@.len() ==> #[trigger] r.fatigue_map@[k] == 0,
            forall|k: int|
                0 <= k < r.action_momentum@.len() ==> #[trigger] r.action_momentum@[k] == 0,
            forall|k: int|
                0 <= k < r.penalty_matrix@.len() ==> #[trigger] r.penalty_matrix@[k] == 0,
            r.mwso.dim == dim_for(r.action_size as int),
            r.mwso.psi_real@ == Seq::new(r.mwso.dim as nat, |i: int| crate::mwso::MWSO_SEED_AMPLITUDE),
            r.mwso.psi_imag@ == Seq::new(r.mwso.dim as nat, |i: int| 0i64),
            r.mwso.theta@ == Seq::new((2 * r.mwso.dim) as nat, |i: int| crate::mwso::init_theta_at(i)),
            r.mwso.frequencies@ == Seq::new(
                r.mwso.dim as nat,
                |i: int| crate::mwso::init_freq_at(i, r.mwso.dim as int),
            ),
            r.mwso.gravity_field@ == Seq::new(r.mwso.dim as nat, |i: int| 0i64),
            r.mwso.entanglements@.len() == 0,
            r.mwso.memory_psi_real@ == Seq::new(r.mwso.dim as nat, |i: int| 0i64),
            r.mwso.memory_psi_imag@ == Seq::new(r.mwso.dim as nat, |i: int| 0i64),
            r.mwso.noise.state == crate::rng::NOISE_DEFAULT_SEED,
    {
        let n = category_sizes.len();
        let mut total: usize = 0;
        let mut c: usize = 0;
        while c < n
            invariant
                c <= n,
                n == category_sizes@.len(),
                total == sum_sizes(category_sizes@, c as int),
                sum_sizes(category_sizes@, n as int) <= 4096,
                forall|k: int| 0 <= k < n ==> 1 <= #[trigger] category_sizes@[k],
            decreases n - c,
        {
            proof {
                lemma_sum_sizes_monotone(category_sizes@, c as int + 1, n as int);
            }
            total = total + category_sizes[c];
            c = c + 1;
        }

        let dim = compute_dim(total);
        proof {
            assert(state_size * dim <= 0x4000000);
        }
        let penalty_len: usize = state_size * dim;

        let mut nodes: Vec<Node> = Vec::new();
        nodes.push(Node::new(ENGINE_DECAY_AGGRESSION));
        nodes.push(Node::new(ENGINE_DECAY_FEAR));
        nodes.push(Node::new(ENGINE_DECAY_TACTICAL));
        nodes.push(Node::new(ENGINE_DECAY_REFLEX));

        let mut last_actions: Vec<usize> = Vec::new();
        let mut k: usize = 0;
        while k < n
            invariant
                k <= n,
                last_actions@.len() == k,
                forall|j: int| 0 <= j < k ==> #[trigger] last_actions@[j] == 0,
            decreases n - k,
        {
            last_actions.push(0);
            k = k + 1;
        }

        Singularity {
            nodes,
            horizon: Horizon::new(),
            mwso: MWSO::new(dim),
            bootstrapper: Bootstrapper::new(),
            active_conditions: Vec::new(),
            system_temperature: ENGINE_TEMP_INIT,
            last_topology_update_temp: ENGINE_TOPOLOGY_INIT,
            adrenaline: 0,
            frustration: 0,
            velocity_trust: FX_ONE,
            fatigue_map: fill_fx(total, 0),
            morale: FX_ONE,
            patience: FX_ONE,
            category_sizes,
            action_size: total,
            state_size,
            last_actions,
            last_state_idx: 0,
            action_momentum: fill_fx(total, 0),
            input_history: Vec::new(),
            history: Vec::new(),
            max_history: ENGINE_MAX_HISTORY,
            learned_rules: Vec::new(),
            penalty_matrix: fill_fx(penalty_len, 0),
            exploration_beta: ENGINE_EXPLORATION_BETA_INIT,
            idx_aggression: 0,
            idx_fear: 1,
            idx_tactical: 2,
            idx_reflex: 3,
        }
    }

    /// Replace the set of active symbolic conditions.
    pub fn set_active_conditions(&mut self, conditions: &Vec<i32>)
        requires
            old(self).wf(),
        ensures
            final(self).wf(),
            final(self).active_conditions@ == conditions@,
            *final(self) == (Singularity { active_conditions: final(self).active_conditions, ..*old(self) }),
    {
        self.active_conditions = copy_i32_vec(conditions);
    }

    /// Force one node's activation, clamped into [0, 1]; an index out of
    /// range is ignored.
    pub fn set_neuron_state(&mut self, idx: usize, state: i64)
        requires
            old(self).wf(),
        ensures
            final(self).wf(),
            final(self).nodes@ == (if idx < 4 {
                old(self).nodes@.update(
                    idx as int,
                    (Node {
                        state: fx_clamp_spec(state, 0, FX_ONE),
                        ..old(self).nodes@[idx as int]
                    }),
                )
            } else {
                old(self).nodes@
            }),
            *final(self) == (Singularity { nodes: final(self).nodes, ..*old(self) }),
    {
        if idx < self.nodes.len() {
            let nv = fx_clamp(state, 0, FX_ONE);
            self.nodes[idx].state = nv;
        }
    }

    /// The engine's aggregate resonance density.
    pub fn get_resonance_density(&self) -> (r: i64)
        requires
            self.wf(),
        ensures
            r == fx_div_spec(
                fx_mul_spec(
                    rhyd_acc_spec(self.mwso.psi_real@, self.mwso.psi_imag@, self.mwso.dim as int),
                    6553600,
                ),
                (self.mwso.dim * (FX_ONE as int)) as i64,
            ),
    {
        self.mwso.calculate_rhyd()
    }

    /// Register a directed phase coupling between two action regions.
    pub fn add_wormhole(&mut self, from_action: usize, to_action: usize, strength: i64)
        requires
            old(self).wf(),
            from_action <= 0x100000,
            to_action <= 0x100000,
        ensures
            final(self).wf(),
            ({
                let bpa = old(self).mwso.dim / old(self).action_size;
                let from_idx = from_action * bpa;
                let to_idx = to_action * bpa;
                final(self).mwso.entanglements@ == if from_idx < old(self).mwso.dim && to_idx
                    < old(self).mwso.dim {
                    old(self).mwso.entanglements@.push((from_idx as usize, to_idx as usize, strength))
                } else {
                    old(self).mwso.entanglements@
                }
            }),
            final(self).mwso.psi_real == old(self).mwso.psi_real,
            final(self).mwso.psi_imag == old(self).mwso.psi_imag,
            final(self).mwso.theta == old(self).mwso.theta,
    {
        let bpa = self.mwso.dim / self.action_size;
        proof {
            assert(self.mwso.dim / self.action_size <= self.mwso.dim) by (nonlinear_arith)
                requires
                    1 <= self.action_size,
                    0 <= self.mwso.dim,
            ;
            assert((from_action as int) * (bpa as int) <= 0x100000 * 0x100000) by (nonlinear_arith)
                requires
                    0 <= from_action <= 0x100000,
                    0 <= bpa <= 0x100000,
            ;
            assert((to_action as int) * (bpa as int) <= 0x100000 * 0x100000) by (nonlinear_arith)
                requires
                    0 <= to_action <= 0x100000,
                    0 <= bpa <= 0x100000,
            ;
        }
        let from_idx_wide: u64 = (from_action as u64) * (bpa as u64);
        let to_idx_wide: u64 = (to_action as u64) * (bpa as u64);
        if from_idx_wide < self.mwso.dim as u64 && to_idx_wide < self.mwso.dim as u64 {
            self.mwso.add_wormhole(from_idx_wide as usize, to_idx_wide as usize, strength);
        }
    }
}

/// The penalty row of one perception state: its slice of the avoidance
/// field over substrate bins.
pub open spec fn penalty_row_spec(pm: Seq<i64>, state_idx: int, dim: int) -> Seq<i64> {
    pm.subrange(state_idx * dim, state_idx * dim + dim)
}

/// The knowledge resonance field of an engine, one optional signed
/// strength per action.
pub open spec fn resonance_field_of(e: Singularity) -> Seq<Option<i64>> {
    Seq::new(
        e.action_size as nat,
        |a: int| resonance_at_spec(
            e.bootstrapper.rules@,
            e.active_conditions@,
            a,
            e.bootstrapper.rules@.len() as int,
        ),
    )
}

/// Amplification of a negative knowledge strength into the penalty row (50).
pub const ENGINE_KNOWLEDGE_PENALTY_GAIN: i64 = 3276800;

/// The penalty row after adding a knowledge penalty to the first `j` bins
/// of one action region (bins beyond the row are ignored).
pub open spec fn pen_bins_fold(row: Seq<i64>, b_start: int, p: i64, j: int) -> Seq<i64>
    decreases j,
{
    if j <= 0 {
        row
    } else {
        let prev = pen_bins_fold(row, b_start, p, j - 1);
        let idx = b_start + (j - 1);
        if 0 <= idx < prev.len() {
            prev.update(idx, fx_add_spec(prev[idx], p))
        } else {
            prev
        }
    }
}

/// The penalty row after injecting, for each of the first `a` actions with
/// a negative knowledge strength, the amplified penalty over its bins.
pub open spec fn pen_actions_fold(row: Seq<i64>, field: Seq<Option<i64>>, bpa: int, a: int) -> Seq<i64>
    decreases a,
{
    if a <= 0 {
        row
    } else {
        let prev = pen_actions_fold(row, field, bpa, a - 1);
        match field[a - 1] {
            Some(s) => if s < 0 {
                pen_bins_fold(prev, (a - 1) * bpa, fx_mul_spec(fx_abs_spec(s), ENGINE_KNOWLEDGE_PENALTY_GAIN), bpa)
            } else {
                prev
            },
            None => prev,
        }
    }
}

/// The injection weight of the `k`-th most recent remembered input: 0.4,
/// halving with every step back.
pub open spec fn decay_at(k: int) -> i64
    decreases k,
{
    if k <= 0 {
        26214
    } else {
        fx_mul_spec(decay_at(k - 1), FX_HALF)
    }
}

/// Weight below which the input trail is cut off (0.1).
pub const ENGINE_TRAIL_FLOOR: i64 = 6553;

/// How many trail entries are injected, scanning from the most recent.
pub open spec fn trail_steps_rec(len: int, j: int) -> int
    decreases len - j,
{
    if j >= len {
        len
    } else if decay_at(j) < ENGINE_TRAIL_FLOOR {
        j
    } else {
        trail_steps_rec(len, j + 1)
    }
}

/// The wave after injecting the `k` most recent remembered inputs, newest
/// first, with geometrically decaying strengths.
pub open spec fn trail_fold(
    re: Seq<i64>,
    im: Seq<i64>,
    theta: Seq<i64>,
    row: Seq<i64>,
    dim: int,
    hist: Seq<usize>,
    k: int,
) -> (Seq<i64>, Seq<i64>)
    decreases k,
{
    if k <= 0 {
        (re, im)
    } else {
        let prev = trail_fold(re, im, theta, row, dim, hist, k - 1);
        let s = hist[hist.len() - k];
        crate::mwso::inject_state_spec(prev.0, prev.1, theta, row, dim, s as int, decay_at(k - 1))
    }
}

/// The remembered-input trail after recording one more input, bounded at
/// four entries.
pub open spec fn push_trim_inputs(s: Seq<usize>, x: usize) -> Seq<usize> {
    let p = s.push(x);
    if p.len() > ENGINE_MAX_INPUT_HISTORY {
        p.drop_first()
    } else {
        p
    }
}

/// The whole pre-selection substrate transformation of one decision cycle:
/// penalty-row assembly with knowledge injection, state injection with the
/// decayed input trail, optional exploration noise, then one core step.
/// Returns the new couplings, the new wave, the generator state after the
/// noise taps, and the assembled penalty row.
pub open spec fn selection_wave_spec(e: Singularity, state_idx: int) -> (
    Seq<i64>,
    Seq<i64>,
    Seq<i64>,
    u64,
    Seq<i64>,
) {
    let dim = e.mwso.dim as int;
    let speed_boost = fx_clamp_spec(fx_mul_spec(e.adrenaline, FX_HALF), 0, FX_ONE);
    let focus = fx_clamp_spec(fx_mul_spec(e.nodes@[2].state, FX_HALF), 0, FX_ONE);
    let row0 = penalty_row_spec(e.penalty_matrix@, state_idx, dim);
    let field = resonance_field_of(e);
    let bpa = dim / (e.action_size as int);
    let row1 = pen_actions_fold(row0, field, bpa, e.action_size as int);
    let inj = crate::mwso::inject_state_spec(
        e.mwso.psi_real@,
        e.mwso.psi_imag@,
        e.mwso.theta@,
        row1,
        dim,
        state_idx,
        FX_ONE,
    );
    let n_trail = trail_steps_rec(e.input_history@.len() as int, 0);
    let trailed = trail_fold(inj.0, inj.1, e.mwso.theta@, row1, dim, e.input_history@, n_trail);
    let noise_on = e.active_conditions@.len() == 0;
    let noise_strength = fx_clamp_spec(fx_mul_spec(e.system_temperature, 6554), 3277, 19661);
    let after_noise = if noise_on {
        noise_fold_spec(trailed.0, e.mwso.noise.state, noise_strength, dim)
    } else {
        (trailed.0, e.mwso.noise.state)
    };
    let stepped = crate::mwso::step_core_spec(
        after_noise.0,
        trailed.1,
        e.mwso.theta@,
        e.mwso.frequencies@,
        e.mwso.gravity_field@,
        e.mwso.memory_psi_real@,
        e.mwso.memory_psi_imag@,
        e.mwso.entanglements@,
        dim,
        6554,
        speed_boost,
        focus,
        e.system_temperature,
        row1,
    );
    (stepped.0, stepped.1, stepped.2, after_noise.1, row1)
}

/// Strong-exclusion threshold of the knowledge field (-0.9).
pub const ENGINE_EXCLUSION_THRESHOLD: i64 = -58982;

/// Score assigned to a strongly excluded action (-1e6).
pub const ENGINE_EXCLUSION_SCORE: i64 = -65536000000;

/// Knowledge bias gain (30).
pub const ENGINE_KNOWLEDGE_GAIN: i64 = 1966080;

/// Motivation gain of a matching knowledge rule (20).
pub const ENGINE_MOTIVATION_GAIN: i64 = 1310720;

/// The learned-rule bonus for a success count: twice the count, capped at
/// five.
pub open spec fn rule_bonus_spec(count: int) -> i64 {
    if count >= 3 {
        327680
    } else {
        (count * 131072) as i64
    }
}

/// The bonus of the first learned rule matching (state, action), if any.
pub open spec fn learned_bonus_spec(rules: Seq<(usize, usize, usize)>, state: int, action: int) -> i64
    decreases rules.len(),
{
    if rules.len() == 0 {
        0
    } else if rules[0].0 == state && rules[0].1 == action {
        rule_bonus_spec(rules[0].2 as int)
    } else {
        learned_bonus_spec(rules.drop_first(), state, action)
    }
}

/// The motivation contributed by the first knowledge rule whose condition
/// is the current state and whose target is the action, if any.
pub open spec fn motivation_spec(rules: Seq<HamiltonianRule>, state: int, action: int) -> i64
    decreases rules.len(),
{
    if rules.len() == 0 {
        0
    } else if rules[0].condition_id == state && rules[0].target_action == action {
        fx_mul_spec(rules[0].strength, ENGINE_MOTIVATION_GAIN)
    } else {
        motivation_spec(rules.drop_first(), state, action)
    }
}

/// The total score of one candidate action within a category: wave score
/// minus fatigue, plus learned-rule bonus, knowledge field (or exclusion),
/// node bias for the first two local actions, momentum, and morale.
pub open spec fn total_score_spec(
    scores: Seq<i64>,
    field: Seq<Option<i64>>,
    fatigue: Seq<i64>,
    learned: Seq<(usize, usize, usize)>,
    brules: Seq<HamiltonianRule>,
    node0: i64,
    node1: i64,
    momentum: Seq<i64>,
    morale: i64,
    state_idx: int,
    offset: int,
    i: int,
) -> i64 {
    let kf0 = match field[offset + i] {
        Some(s) => if s < ENGINE_EXCLUSION_THRESHOLD {
            ENGINE_EXCLUSION_SCORE
        } else {
            fx_mul_spec(s, ENGINE_KNOWLEDGE_GAIN)
        },
        None => 0i64,
    };
    let kf = fx_add_spec(kf0, motivation_spec(brules, state_idx, offset + i));
    let base = fx_sub_spec(scores[i], fx_mul_spec(fatigue[offset + i], FX_HALF));
    let internal = learned_bonus_spec(learned, state_idx, offset + i);
    let neuron = if i == 0 {
        fx_mul_spec(node0, 26214)
    } else if i == 1 {
        fx_mul_spec(node1, 13107)
    } else {
        0i64
    };
    let momentum_boost = fx_mul_spec(momentum[offset + i], 98304);
    fx_add_spec(
        fx_add_spec(fx_add_spec(fx_add_spec(fx_add_spec(base, internal), kf), neuron), momentum_boost),
        fx_mul_spec(morale, 6554),
    )
}

/// The winning local action among the first `i` candidates and its score;
/// among equal scores the later action wins.
pub open spec fn best_fold(
    scores: Seq<i64>,
    field: Seq<Option<i64>>,
    fatigue: Seq<i64>,
    learned: Seq<(usize, usize, usize)>,
    brules: Seq<HamiltonianRule>,
    node0: i64,
    node1: i64,
    momentum: Seq<i64>,
    morale: i64,
    state_idx: int,
    offset: int,
    i: int,
) -> (int, i64)
    decreases i,
{
    if i <= 1 {
        (
            0,
            total_score_spec(
                scores,
                field,
                fatigue,
                learned,
                brules,
                node0,
                node1,
                momentum,
                morale,
                state_idx,
                offset,
                0,
            ),
        )
    } else {
        let prev = best_fold(
            scores,
            field,
            fatigue,
            learned,
            brules,
            node0,
            node1,
            momentum,
            morale,
            state_idx,
            offset,
            i - 1,
        );
        let t = total_score_spec(
            scores,
            field,
            fatigue,
            learned,
            brules,
            node0,
            node1,
            momentum,
            morale,
            state_idx,
            offset,
            i - 1,
        );
        if t >= prev.1 {
            (i - 1, t)
        } else {
            prev
        }
    }
}

/// A vector of `n` zero-initialisable fixed-point values.
fn fill_fx(n: usize, value: i64) -> (r: Vec<i64>)
    ensures
        r@.len() == n,
        forall|k: int| 0 <= k < n ==> #[trigger] r@[k] == value,
{
    let mut v: Vec<i64> = Vec::new();
    let mut i: usize = 0;
    while i < n
        invariant
            i <= n,
            v@.len() == i,
            forall|k: int| 0 <= k < i ==> #[trigger] v@[k] == value,
        decreases n - i,
    {
        v.push(value);
        i = i + 1;
    }
    v
}

/// Scan for the first learned rule matching (state, action).
fn learned_bonus(rules: &Vec<(usize, usize, usize)>, state: usize, action: usize) -> (r: i64)
    ensures
        r == learned_bonus_spec(rules@, state as int, action as int),
{
    let n = rules.len();
    let mut i: usize = 0;
    proof {
        assert(rules@.skip(0) =~= rules@);
    }
    while i < n
        invariant
            i <= n,
            n == rules@.len(),
            learned_bonus_spec(rules@.skip(i as int), state as int, action as int)
                == learned_bonus_spec(rules@, state as int, action as int),
        decreases n - i,
    {
        let state_part = rules[i].0;
        let action_part = rules[i].1;
        let count = rules[i].2;
        if state_part == state && action_part == action {
            if count >= 3 {
                return 327680;
            }
            return (count as i64) * 131072;
        }
        proof {
            assert(rules@.skip(i as int).drop_first() =~= rules@.skip(i as int + 1));
        }
        i = i + 1;
    }
    proof {
        assert(rules@.skip(n as int) =~= Seq::<(usize, usize, usize)>::empty());
    }
    0
}

/// Scan for the first knowledge rule motivated by the current state.
fn motivation_for(rules: &Vec<HamiltonianRule>, state: usize, action: usize) -> (r: i64)
    requires
        state <= 0xffff,
    ensures
        r == motivation_spec(rules@, state as int, action as int),
{
    let n = rules.len();
    let mut i: usize = 0;
    proof {
        assert(rules@.skip(0) =~= rules@);
    }
    while i < n
        invariant
            i <= n,
            n == rules@.len(),
            state <= 0xffff,
            motivation_spec(rules@.skip(i as int), state as int, action as int)
                == motivation_spec(rules@, state as int, action as int),
        decreases n - i,
    {
        let cond = rules[i].condition_id;
        let target = rules[i].target_action;
        if cond == state as i32 && target == action {
            let strength = rules[i].strength;
            return fx_mul(strength, ENGINE_MOTIVATION_GAIN);
        }
        proof {
            assert(rules@.skip(i as int).drop_first() =~= rules@.skip(i as int + 1));
        }
        i = i + 1;
    }
    proof {
        assert(rules@.skip(n as int) =~= Seq::<HamiltonianRule>::empty());
    }
    0
}

impl Singularity {
    /// The total score of one candidate action.
    fn total_score_at(
        &self,
        scores: &Vec<i64>,
        field: &Vec<Option<i64>>,
        offset: usize,
        i: usize,
    ) -> (r: i64)
        requires
            self.wf(),
            field@.len() == self.action_size,
            offset + i < self.action_size,
            i < scores@.len(),
        ensures
            r == total_score_spec(
                scores@,
                field@,
                self.fatigue_map@,
                self.learned_rules@,
                self.bootstrapper.rules@,
                self.nodes@[0].state,
                self.nodes@[1].state,
                self.action_momentum@,
                self.morale,
                self.last_state_idx as int,
                offset as int,
                i as int,
            ),
    {
        let kf0: i64 = match field[offset + i] {
            Some(s) => if s < ENGINE_EXCLUSION_THRESHOLD {
                ENGINE_EXCLUSION_SCORE
            } else {
                fx_mul(s, ENGINE_KNOWLEDGE_GAIN)
            },
            None => 0,
        };
        let kf = fx_add(kf0, motivation_for(&self.bootstrapper.rules, self.last_state_idx, offset + i));
        let base = fx_sub(scores[i], fx_mul(self.fatigue_map[offset + i], FX_HALF));
        let internal = learned_bonus(&self.learned_rules, self.last_state_idx, offset + i);
        let neuron: i64 = if i == 0 {
            fx_mul(self.nodes[0].state, 26214)
        } else if i == 1 {
            fx_mul(self.nodes[1].state, 13107)
        } else {
            0
        };
        let momentum_boost = fx_mul(self.action_momentum[offset + i], 98304);
        fx_add(
            fx_add(fx_add(fx_add(fx_add(base, internal), kf), neuron), momentum_boost),
            fx_mul(self.morale, 6554),
        )
    }

    /// The winning local action of one category: the candidate with the
    /// greatest total score, later candidates winning ties.  Draws
    /// exploration jitter when no symbolic condition is active.
    fn get_best_in_range(&mut self, offset: usize, size: usize, penalty_field: &Vec<i64>) -> (r: usize)
        requires
            old(self).wf(),
            1 <= size,
            offset + size <= old(self).action_size,
        ensures
            r < size,
            ({
                let noise_amt: i64 = if old(self).active_conditions@.len() == 0 {
                    13107
                } else {
                    0
                };
                let sf = scores_fold_spec(
                    old(self).mwso.psi_real@,
                    old(self).mwso.psi_imag@,
                    old(self).mwso.theta@,
                    penalty_field@,
                    old(self).mwso.dim as int,
                    offset as int,
                    (old(self).mwso.dim / size) as int,
                    noise_amt,
                    old(self).mwso.noise.state,
                    size as int,
                );
                &&& r == best_fold(
                    sf.0,
                    resonance_field_of(*old(self)),
                    old(self).fatigue_map@,
                    old(self).learned_rules@,
                    old(self).bootstrapper.rules@,
                    old(self).nodes@[0].state,
                    old(self).nodes@[1].state,
                    old(self).action_momentum@,
                    old(self).morale,
                    old(self).last_state_idx as int,
                    offset as int,
                    size as int,
                ).0
                &&& final(self).mwso.noise.state == sf.1
            }),
            final(self).mwso.psi_real == old(self).mwso.psi_real,
            final(self).mwso.psi_imag == old(self).mwso.psi_imag,
            final(self).mwso.theta == old(self).mwso.theta,
            final(self).mwso.frequencies == old(self).mwso.frequencies,
            final(self).mwso.gravity_field == old(self).mwso.gravity_field,
            final(self).mwso.entanglements == old(self).mwso.entanglements,
            final(self).mwso.memory_psi_real == old(self).mwso.memory_psi_real,
            final(self).mwso.memory_psi_imag == old(self).mwso.memory_psi_imag,
            final(self).mwso.dim == old(self).mwso.dim,
            final(self).nodes == old(self).nodes,
            final(self).horizon == old(self).horizon,
            final(self).bootstrapper == old(self).bootstrapper,
            final(self).active_conditions == old(self).active_conditions,
            final(self).system_temperature == old(self).system_temperature,
            final(self).last_topology_update_temp == old(self).last_topology_update_temp,
            final(self).adrenaline == old(self).adrenaline,
            final(self).frustration == old(self).frustration,
            final(self).velocity_trust == old(self).velocity_trust,
            final(self).fatigue_map == old(self).fatigue_map,
            final(self).morale == old(self).morale,
            final(self).patience == old(self).patience,
            final(self).category_sizes == old(self).category_sizes,
            final(self).action_size == old(self).action_size,
            final(self).state_size == old(self).state_size,
            final(self).last_actions == old(self).last_actions,
            final(self).last_state_idx == old(self).last_state_idx,
            final(self).action_momentum == old(self).action_momentum,
            final(self).input_history == old(self).input_history,
            final(self).history == old(self).history,
            final(self).max_history == old(self).max_history,
            final(self).learned_rules == old(self).learned_rules,
            final(self).penalty_matrix == old(self).penalty_matrix,
            final(self).exploration_beta == old(self).exploration_beta,
            final(self).idx_aggression == old(self).idx_aggression,
            final(self).idx_fear == old(self).idx_fear,
            final(self).idx_tactical == old(self).idx_tactical,
            final(self).idx_reflex == old(self).idx_reflex,
    {
        let noise_amt: i64 = if self.active_conditions.len() == 0 {
            13107
        } else {
            0
        };
        let scores = self.mwso.get_action_scores(offset, size, noise_amt, penalty_field);

        let field = self.bootstrapper.calculate_resonance_field(&self.active_conditions, self.action_size);
        proof {
            assert(field@ =~= resonance_field_of(*old(self)));
        }

        let mut best: usize = 0;
        let mut max_score: i64 = self.total_score_at(&scores, &field, offset, 0);
        let mut i: usize = 1;
        while i < size
            invariant
                1 <= i <= size,
                offset + size <= self.action_size,
                self.wf(),
                scores@.len() == size,
                field@.len() == self.action_size,
                best < i,
                (best as int, max_score) == best_fold(
                    scores@,
                    field@,
                    self.fatigue_map@,
                    self.learned_rules@,
                    self.bootstrapper.rules@,
                    self.nodes@[0].state,
                    self.nodes@[1].state,
                    self.action_momentum@,
                    self.morale,
                    self.last_state_idx as int,
                    offset as int,
                    i as int,
                ),
                final_eq_except_noise(*self, *old(self)),
            decreases size - i,
        {
            let t = self.total_score_at(&scores, &field, offset, i);
            if t >= max_score {
                best = i;
                max_score = t;
            }
            i = i + 1;
        }
        best
    }
}

/// Results, updated chosen actions and generator state after selecting the
/// winners of the first `c` categories in order, on a fixed post-step wave.
pub open spec fn cats_fold(
    cats: Seq<usize>,
    dim: int,
    re: Seq<i64>,
    im: Seq<i64>,
    theta: Seq<i64>,
    row: Seq<i64>,
    field: Seq<Option<i64>>,
    fatigue: Seq<i64>,
    learned: Seq<(usize, usize, usize)>,
    brules: Seq<HamiltonianRule>,
    node0: i64,
    node1: i64,
    momentum: Seq<i64>,
    morale: i64,
    state_idx: int,
    noise_amt: i64,
    la: Seq<usize>,
    noise0: u64,
    c: int,
) -> (Seq<i32>, Seq<usize>, u64)
    decreases c,
{
    if c <= 0 {
        (Seq::empty(), la, noise0)
    } else {
        let prev = cats_fold(
            cats,
            dim,
            re,
            im,
            theta,
            row,
            field,
            fatigue,
            learned,
            brules,
            node0,
            node1,
            momentum,
            morale,
            state_idx,
            noise_amt,
            la,
            noise0,
            c - 1,
        );
        let size = cats[c - 1] as int;
        let offset = sum_sizes(cats, c - 1);
        let sf = scores_fold_spec(re, im, theta, row, dim, offset, dim / size, noise_amt, prev.2, size);
        let best = best_fold(
            sf.0,
            field,
            fatigue,
            learned,
            brules,
            node0,
            node1,
            momentum,
            morale,
            state_idx,
            offset,
            size,
        ).0;
        (prev.0.push(best as i32), prev.1.update(c - 1, (offset + best) as usize), sf.1)
    }
}

/// The remembered decisions as plain pairs of state and action list.
pub open spec fn hist_view(h: Seq<Experience>) -> Seq<(int, Seq<usize>)> {
    Seq::new(h.len(), |i: int| (h[i].state_idx as int, h[i].actions@))
}

/// A bounded push onto the decision history.
pub open spec fn push_trim_hist(s: Seq<(int, Seq<usize>)>, x: (int, Seq<usize>)) -> Seq<(int, Seq<usize>)> {
    let p = s.push(x);
    if p.len() > ENGINE_MAX_HISTORY {
        p.drop_first()
    } else {
        p
    }
}

impl Singularity {
    /// One decision cycle: assemble the penalty row of the perceived state
    /// (knowledge exclusions included), inject the state and its decayed
    /// input trail, add exploration noise when no symbolic condition is
    /// active, advance the substrate one step, then pick the winner of
    /// every category in order and remember the decision.
    /// The penalty row of the perceived state with the knowledge-derived
    /// exclusion penalties injected over the affected action regions.
    #[verifier::rlimit(60)]
    fn assemble_penalty_row(&self, state_idx: usize) -> (row: Vec<i64>)
        requires
            self.wf(),
            state_idx < self.state_size,
        ensures
            ({
                let dim = self.mwso.dim as int;
                row@ == pen_actions_fold(
                    penalty_row_spec(self.penalty_matrix@, state_idx as int, dim),
                    resonance_field_of(*self),
                    dim / (self.action_size as int),
                    self.action_size as int,
                )
            }),
            row@.len() == self.mwso.dim,
    {
        let dim = self.mwso.dim;
        let ghost ssz = self.state_size;
        let plen: usize = self.penalty_matrix.len();
        proof {
            assert((state_idx as int) * (dim as int) + dim <= (ssz as int) * (dim as int))
                by (nonlinear_arith)
                requires
                    state_idx < ssz,
                    0 <= dim,
            ;
            assert((state_idx as int) * (dim as int) + dim <= plen as int);
        }
        let start: usize = state_idx * dim;
        let mut row: Vec<i64> = Vec::new();
        let mut j: usize = 0;
        while j < dim
            invariant
                j <= dim,
                self.wf(),
                self.mwso.dim == dim,
                start == state_idx * dim,
                start + dim <= plen,
                plen == self.penalty_matrix@.len(),
                row@.len() == j,
                forall|k: int| 0 <= k < j ==> row@[k] == self.penalty_matrix@[start + k],
            decreases dim - j,
        {
            row.push(self.penalty_matrix[start + j]);
            j = j + 1;
        }
        proof {
            assert(row@ =~= penalty_row_spec(self.penalty_matrix@, state_idx as int, dim as int));
        }

        let field = self.bootstrapper.calculate_resonance_field(&self.active_conditions, self.action_size);
        proof {
            assert(field@ =~= resonance_field_of(*self));
        }

        let ghost row0 = row@;
        let bpa = dim / self.action_size;
        proof {
            assert(dim / self.action_size <= dim) by (nonlinear_arith)
                requires
                    1 <= self.action_size,
                    0 <= dim,
            ;
        }
        let n_actions = self.action_size;
        let mut a: usize = 0;
        while a < n_actions
            invariant
                a <= n_actions,
                self.wf(),
                self.mwso.dim == dim,
                self.action_size == n_actions,
                bpa == dim / n_actions,
                bpa <= dim,
                field@.len() == n_actions,
                row@.len() == dim,
                row@ == pen_actions_fold(row0, field@, bpa as int, a as int),
            decreases n_actions - a,
        {
            let entry: Option<i64> = field[a];
            match entry {
                Some(s) => {
                    if s < 0 {
                        let p_val = fx_mul(fx_abs(s), ENGINE_KNOWLEDGE_PENALTY_GAIN);
                        proof {
                            assert((a as int) * (bpa as int) <= 4096 * 0x100000) by (nonlinear_arith)
                                requires
                                    0 <= a <= 4096,
                                    0 <= bpa <= 0x100000,
                            ;
                        }
                        let b_start: u64 = (a as u64) * (bpa as u64);
                        let ghost row_pre = row@;
                        let mut jj: usize = 0;
                        while jj < bpa
                            invariant
                                jj <= bpa,
                                row@.len() == dim,
                                bpa <= 0x100000,
                                b_start == (a as int) * (bpa as int),
                                b_start <= 4096 * 0x100000,
                                row@ == pen_bins_fold(row_pre, b_start as int, p_val, jj as int),
                            decreases bpa - jj,
                        {
                            let idx_wide: u64 = b_start + jj as u64;
                            if idx_wide < row.len() as u64 {
                                let idx = idx_wide as usize;
                                let nv = fx_add(row[idx], p_val);
                                row.set(idx, nv);
                            }
                            jj = jj + 1;
                        }
                    }
                },
                None => {},
            }
            a = a + 1;
        }
        row
    }

    /// Inject the perceived state at full strength, then the remembered
    /// input trail with geometrically decaying strengths.
    #[verifier::rlimit(100)]
    fn inject_with_trail(&mut self, state_idx: usize, row: &Vec<i64>)
        requires
            old(self).wf(),
            row@.len() == old(self).mwso.dim,
        ensures
            final(self).wf(),
            ({
                let e = *old(self);
                let dimi = e.mwso.dim as int;
                let inj = crate::mwso::inject_state_spec(
                    e.mwso.psi_real@,
                    e.mwso.psi_imag@,
                    e.mwso.theta@,
                    row@,
                    dimi,
                    state_idx as int,
                    FX_ONE,
                );
                let n_trail = trail_steps_rec(e.input_history@.len() as int, 0);
                let trailed = trail_fold(inj.0, inj.1, e.mwso.theta@, row@, dimi, e.input_history@, n_trail);
                final(self).mwso.psi_real@ == trailed.0 && final(self).mwso.psi_imag@ == trailed.1
            }),
            final(self).mwso.theta == old(self).mwso.theta,
            final(self).mwso.frequencies == old(self).mwso.frequencies,
            final(self).mwso.gravity_field == old(self).mwso.gravity_field,
            final(self).mwso.entanglements == old(self).mwso.entanglements,
            final(self).mwso.memory_psi_real == old(self).mwso.memory_psi_real,
            final(self).mwso.memory_psi_imag == old(self).mwso.memory_psi_imag,
            final(self).mwso.dim == old(self).mwso.dim,
            final(self).mwso.noise == old(self).mwso.noise,
            *final(self) == (Singularity { mwso: final(self).mwso, ..*old(self) }),
    {
        let dim = self.mwso.dim;
        self.mwso.inject_state(state_idx, FX_ONE, row);
        proof {
            let e = *old(self);
            let dimi = e.mwso.dim as int;
            let inj = crate::mwso::inject_state_spec(
                e.mwso.psi_real@,
                e.mwso.psi_imag@,
                e.mwso.theta@,
                row@,
                dimi,
                state_idx as int,
                FX_ONE,
            );
            assert(self.mwso.psi_real@ == inj.0 && self.mwso.psi_imag@ == inj.1);
        }

        let hist_len = self.input_history.len();
        let ghost pre_trail_re = self.mwso.psi_real@;
        let ghost pre_trail_im = self.mwso.psi_imag@;
        let mut decay: i64 = 26214;
        let mut k: usize = 0;
        while k < hist_len && decay >= ENGINE_TRAIL_FLOOR
            invariant
                k <= hist_len,
                hist_len == self.input_history@.len(),
                self.wf(),
                self.mwso.dim == dim,
                decay == decay_at(k as int),
                trail_steps_rec(hist_len as int, k as int) == trail_steps_rec(hist_len as int, 0),
                ({
                    let folded = trail_fold(
                        pre_trail_re,
                        pre_trail_im,
                        self.mwso.theta@,
                        row@,
                        dim as int,
                        self.input_history@,
                        k as int,
                    );
                    self.mwso.psi_real@ == folded.0 && self.mwso.psi_imag@ == folded.1
                }),
                self.mwso.theta == old(self).mwso.theta,
                self.mwso.frequencies == old(self).mwso.frequencies,
                self.mwso.gravity_field == old(self).mwso.gravity_field,
                self.mwso.entanglements == old(self).mwso.entanglements,
                self.mwso.memory_psi_real == old(self).mwso.memory_psi_real,
                self.mwso.memory_psi_imag == old(self).mwso.memory_psi_imag,
                self.mwso.noise == old(self).mwso.noise,
                *self == (Singularity { mwso: self.mwso, ..*old(self) }),
                row@.len() == dim,
            decreases hist_len - k,
        {
            let prev_idx = self.input_history[hist_len - 1 - k];
            self.mwso.inject_state(prev_idx, decay, row);
            decay = fx_mul(decay, FX_HALF);
            k = k + 1;
        }

        proof {
            let e = *old(self);
            let dimi = e.mwso.dim as int;
            let inj = crate::mwso::inject_state_spec(
                e.mwso.psi_real@,
                e.mwso.psi_imag@,
                e.mwso.theta@,
                row@,
                dimi,
                state_idx as int,
                FX_ONE,
            );
            let n_trail = trail_steps_rec(e.input_history@.len() as int, 0);
            let trailed = trail_fold(inj.0, inj.1, e.mwso.theta@, row@, dimi, e.input_history@, n_trail);
            assert(self.mwso.psi_real@ == trailed.0 && self.mwso.psi_imag@ == trailed.1);
        }
    }

    /// Drive the substrate for one decision cycle: inject the perceived
    /// state and its decayed input trail against the penalty row, record
    /// the input, add exploration noise when no symbolic condition is
    /// active, and advance the wave one step.
    #[verifier::rlimit(100)]
    fn drive_wave(&mut self, state_idx: usize, row: &Vec<i64>)
        requires
            old(self).wf(),
            row@.len() == old(self).mwso.dim,
        ensures
            final(self).wf(),
            ({
                let e = *old(self);
                let dimi = e.mwso.dim as int;
                let speed_boost = fx_clamp_spec(fx_mul_spec(e.adrenaline, FX_HALF), 0, FX_ONE);
                let focus = fx_clamp_spec(fx_mul_spec(e.nodes@[2].state, FX_HALF), 0, FX_ONE);
                let inj = crate::mwso::inject_state_spec(
                    e.mwso.psi_real@,
                    e.mwso.psi_imag@,
                    e.mwso.theta@,
                    row@,
                    dimi,
                    state_idx as int,
                    FX_ONE,
                );
                let n_trail = trail_steps_rec(e.input_history@.len() as int, 0);
                let trailed = trail_fold(inj.0, inj.1, e.mwso.theta@, row@, dimi, e.input_history@, n_trail);
                let noise_on = e.active_conditions@.len() == 0;
                let noise_strength = fx_clamp_spec(fx_mul_spec(e.system_temperature, 6554), 3277, 19661);
                let after_noise = if noise_on {
                    noise_fold_spec(trailed.0, e.mwso.noise.state, noise_strength, dimi)
                } else {
                    (trailed.0, e.mwso.noise.state)
                };
                let stepped = crate::mwso::step_core_spec(
                    after_noise.0,
                    trailed.1,
                    e.mwso.theta@,
                    e.mwso.frequencies@,
                    e.mwso.gravity_field@,
                    e.mwso.memory_psi_real@,
                    e.mwso.memory_psi_imag@,
                    e.mwso.entanglements@,
                    dimi,
                    6554,
                    speed_boost,
                    focus,
                    e.system_temperature,
                    row@,
                );
                &&& final(self).mwso.theta@ == stepped.0
                &&& final(self).mwso.psi_real@ == stepped.1
                &&& final(self).mwso.psi_imag@ == stepped.2
                &&& final(self).mwso.noise.state == after_noise.1
            }),
            final(self).input_history@ == push_trim_inputs(old(self).input_history@, state_idx),
            final(self).mwso.frequencies == old(self).mwso.frequencies,
            final(self).mwso.gravity_field == old(self).mwso.gravity_field,
            final(self).mwso.entanglements == old(self).mwso.entanglements,
            final(self).mwso.memory_psi_real == old(self).mwso.memory_psi_real,
            final(self).mwso.memory_psi_imag == old(self).mwso.memory_psi_imag,
            final(self).mwso.dim == old(self).mwso.dim,
            *final(self) == (Singularity {
                mwso: final(self).mwso,
                input_history: final(self).input_history,
                ..*old(self)
            }),
    {
        let speed_boost = fx_clamp(fx_mul(self.adrenaline, FX_HALF), 0, FX_ONE);
        let focus = fx_clamp(fx_mul(self.nodes[2].state, FX_HALF), 0, FX_ONE);
        let dim = self.mwso.dim;
        self.inject_with_trail(state_idx, row);

        self.input_history.push(state_idx);
        if self.input_history.len() > ENGINE_MAX_INPUT_HISTORY {
            self.input_history.remove(0);
        }

        if self.active_conditions.len() == 0 {
            let noise_strength = fx_clamp(fx_mul(self.system_temperature, 6554), 3277, 19661);
            self.mwso.inject_exploration_noise(noise_strength);
        }
        proof {
            let e = *old(self);
            let dimi = e.mwso.dim as int;
            let inj = crate::mwso::inject_state_spec(
                e.mwso.psi_real@,
                e.mwso.psi_imag@,
                e.mwso.theta@,
                row@,
                dimi,
                state_idx as int,
                FX_ONE,
            );
            let n_trail = trail_steps_rec(e.input_history@.len() as int, 0);
            let trailed = trail_fold(inj.0, inj.1, e.mwso.theta@, row@, dimi, e.input_history@, n_trail);
            let noise_on = e.active_conditions@.len() == 0;
            let noise_strength_g = fx_clamp_spec(fx_mul_spec(e.system_temperature, 6554), 3277, 19661);
            let after_noise = if noise_on {
                noise_fold_spec(trailed.0, e.mwso.noise.state, noise_strength_g, dimi)
            } else {
                (trailed.0, e.mwso.noise.state)
            };
            assert(self.mwso.psi_real@ == after_noise.0 && self.mwso.noise.state == after_noise.1);
            assert(self.mwso.psi_imag@ == trailed.1);
        }

        self.mwso.step_core(6554, speed_boost, focus, self.system_temperature, &row);
    }

    /// Assemble the penalty row of the perceived state and run the whole
    /// pre-selection substrate transformation of one decision cycle.
    #[verifier::rlimit(100)]
    fn prepare_selection(&mut self, state_idx: usize) -> (row: Vec<i64>)
        requires
            old(self).wf(),
            state_idx < old(self).state_size,
        ensures
            final(self).wf(),
            ({
                let sel = selection_wave_spec(*old(self), state_idx as int);
                &&& final(self).mwso.theta@ == sel.0
                &&& final(self).mwso.psi_real@ == sel.1
                &&& final(self).mwso.psi_imag@ == sel.2
                &&& final(self).mwso.noise.state == sel.3
                &&& row@ == sel.4
            }),
            row@.len() == old(self).mwso.dim,
            final(self).last_state_idx == state_idx,
            final(self).input_history@ == push_trim_inputs(old(self).input_history@, state_idx),
            final(self).mwso.frequencies == old(self).mwso.frequencies,
            final(self).mwso.gravity_field == old(self).mwso.gravity_field,
            final(self).mwso.entanglements == old(self).mwso.entanglements,
            final(self).mwso.memory_psi_real == old(self).mwso.memory_psi_real,
            final(self).mwso.memory_psi_imag == old(self).mwso.memory_psi_imag,
            final(self).mwso.dim == old(self).mwso.dim,
            final(self).nodes == old(self).nodes,
            final(self).horizon == old(self).horizon,
            final(self).bootstrapper == old(self).bootstrapper,
            final(self).active_conditions == old(self).active_conditions,
            final(self).system_temperature == old(self).system_temperature,
            final(self).last_topology_update_temp == old(self).last_topology_update_temp,
            final(self).adrenaline == old(self).adrenaline,
            final(self).frustration == old(self).frustration,
            final(self).velocity_trust == old(self).velocity_trust,
            final(self).fatigue_map == old(self).fatigue_map,
            final(self).morale == old(self).morale,
            final(self).patience == old(self).patience,
            final(self).category_sizes == old(self).category_sizes,
            final(self).action_size == old(self).action_size,
            final(self).state_size == old(self).state_size,
            final(self).last_actions == old(self).last_actions,
            final(self).history == old(self).history,
            final(self).max_history == old(self).max_history,
            final(self).learned_rules == old(self).learned_rules,
            final(self).penalty_matrix == old(self).penalty_matrix,
            final(self).action_momentum == old(self).action_momentum,
            final(self).exploration_beta == old(self).exploration_beta,
    {
        self.last_state_idx = state_idx;
        let row = self.assemble_penalty_row(state_idx);
        proof {
            assert(resonance_field_of(*self) =~= resonance_field_of(*old(self)));
        }
        self.drive_wave(state_idx, &row);
        row
    }

    #[verifier::rlimit(100)]
    pub fn select_actions(&mut self, state_idx: usize) -> (r: Vec<i32>)
        requires
            old(self).wf(),
            state_idx < old(self).state_size,
        ensures
            final(self).wf(),
            r@.len() == old(self).category_sizes@.len(),
            forall|c: int| 0 <= c < r@.len() ==> 0 <= #[trigger] r@[c] < old(self).category_sizes@[c],
            ({
                let sel = selection_wave_spec(*old(self), state_idx as int);
                let folded = cats_fold(
                    old(self).category_sizes@,
                    old(self).mwso.dim as int,
                    sel.1,
                    sel.2,
                    sel.0,
                    sel.4,
                    resonance_field_of(*old(self)),
                    old(self).fatigue_map@,
                    old(self).learned_rules@,
                    old(self).bootstrapper.rules@,
                    old(self).nodes@[0].state,
                    old(self).nodes@[1].state,
                    old(self).action_momentum@,
                    old(self).morale,
                    state_idx as int,
                    (if old(self).active_conditions@.len() == 0 {
                        13107i64
                    } else {
                        0i64
                    }),
                    old(self).last_actions@,
                    sel.3,
                    old(self).category_sizes@.len() as int,
                );
                &&& final(self).mwso.theta@ == sel.0
                &&& final(self).mwso.psi_real@ == sel.1
                &&& final(self).mwso.psi_imag@ == sel.2
                &&& final(self).mwso.noise.state == folded.2
                &&& r@ == folded.0
                &&& final(self).last_actions@ == folded.1
            }),
            final(self).last_state_idx == state_idx,
            final(self).input_history@ == push_trim_inputs(old(self).input_history@, state_idx),
            hist_view(final(self).history@) == push_trim_hist(
                hist_view(old(self).history@),
                (state_idx as int, final(self).last_actions@),
            ),
            final(self).mwso.frequencies == old(self).mwso.frequencies,
            final(self).mwso.gravity_field == old(self).mwso.gravity_field,
            final(self).mwso.entanglements == old(self).mwso.entanglements,
            final(self).mwso.memory_psi_real == old(self).mwso.memory_psi_real,
            final(self).mwso.memory_psi_imag == old(self).mwso.memory_psi_imag,
            final(self).mwso.dim == old(self).mwso.dim,
            final(self).nodes == old(self).nodes,
            final(self).horizon == old(self).horizon,
            final(self).bootstrapper == old(self).bootstrapper,
            final(self).active_conditions == old(self).active_conditions,
            final(self).system_temperature == old(self).system_temperature,
            final(self).last_topology_update_temp == old(self).last_topology_update_temp,
            final(self).adrenaline == old(self).adrenaline,
            final(self).frustration == old(self).frustration,
            final(self).velocity_trust == old(self).velocity_trust,
            final(self).fatigue_map == old(self).fatigue_map,
            final(self).morale == old(self).morale,
            final(self).patience == old(self).patience,
            final(self).category_sizes == old(self).category_sizes,
            final(self).action_size == old(self).action_size,
            final(self).state_size == old(self).state_size,
            final(self).action_momentum == old(self).action_momentum,
            final(self).max_history == old(self).max_history,
            final(self).learned_rules == old(self).learned_rules,
            final(self).penalty_matrix == old(self).penalty_matrix,
            final(self).exploration_beta == old(self).exploration_beta,
    {
        let ghost e0 = *old(self);
        let dim = self.mwso.dim;
        let row = self.prepare_selection(state_idx);
        let field = self.bootstrapper.calculate_resonance_field(&self.active_conditions, self.action_size);
        proof {
            assert(field@ =~= resonance_field_of(e0));
        }

        let ncats = self.category_sizes.len();
        let mut results: Vec<i32> = Vec::new();
        let mut offset: usize = 0;
        let mut c: usize = 0;
        while c < ncats
            invariant
                c <= ncats,
                ncats == self.category_sizes@.len(),
                self.wf(),
                self.mwso.dim == dim,
                offset == sum_sizes(self.category_sizes@, c as int),
                0 <= offset <= self.action_size,
                results@.len() == c,
                field@ == resonance_field_of(*old(self)),
                field@.len() == self.action_size,
                row@.len() == dim,
                self.last_state_idx == state_idx,
                ({
                    let sel = selection_wave_spec(*old(self), state_idx as int);
                    let folded = cats_fold(
                        self.category_sizes@,
                        dim as int,
                        sel.1,
                        sel.2,
                        sel.0,
                        sel.4,
                        field@,
                        self.fatigue_map@,
                        self.learned_rules@,
                        self.bootstrapper.rules@,
                        self.nodes@[0].state,
                        self.nodes@[1].state,
                        self.action_momentum@,
                        self.morale,
                        state_idx as int,
                        (if self.active_conditions@.len() == 0 {
                            13107i64
                        } else {
                            0i64
                        }),
                        old(self).last_actions@,
                        sel.3,
                        c as int,
                    );
                    &&& self.mwso.theta@ == sel.0
                    &&& self.mwso.psi_real@ == sel.1
                    &&& self.mwso.psi_imag@ == sel.2
                    &&& row@ == sel.4
                    &&& self.mwso.noise.state == folded.2
                    &&& results@ == folded.0
                    &&& self.last_actions@ == folded.1
                }),
                forall|ci: int|
                    0 <= ci < c ==> 0 <= #[trigger] results@[ci] < self.category_sizes@[ci],
                self.mwso.frequencies == old(self).mwso.frequencies,
                self.mwso.gravity_field == old(self).mwso.gravity_field,
                self.mwso.entanglements == old(self).mwso.entanglements,
                self.mwso.memory_psi_real == old(self).mwso.memory_psi_real,
                self.mwso.memory_psi_imag == old(self).mwso.memory_psi_imag,
                self.nodes == old(self).nodes,
                self.horizon == old(self).horizon,
                self.bootstrapper == old(self).bootstrapper,
                self.active_conditions == old(self).active_conditions,
                self.system_temperature == old(self).system_temperature,
                self.last_topology_update_temp == old(self).last_topology_update_temp,
                self.adrenaline == old(self).adrenaline,
                self.frustration == old(self).frustration,
                self.velocity_trust == old(self).velocity_trust,
                self.fatigue_map == old(self).fatigue_map,
                self.morale == old(self).morale,
                self.patience == old(self).patience,
                self.category_sizes == old(self).category_sizes,
                self.action_size == old(self).action_size,
                self.state_size == old(self).state_size,
                self.action_momentum == old(self).action_momentum,
                self.input_history@ == push_trim_inputs(old(self).input_history@, state_idx),
                self.history == old(self).history,
                self.max_history == old(self).max_history,
                self.learned_rules == old(self).learned_rules,
                self.penalty_matrix == old(self).penalty_matrix,
                self.exploration_beta == old(self).exploration_beta,
            decreases ncats - c,
        {
            let size = self.category_sizes[c];
            proof {
                lemma_sum_sizes_monotone(self.category_sizes@, c as int + 1, ncats as int);
            }
            let best = self.get_best_in_range(offset, size, &row);
            self.last_actions.set(c, offset + best);
            results.push(best as i32);
            offset = offset + size;
            c = c + 1;
        }

        let acts = copy_usize_vec(&self.last_actions);
        self.history.push(Experience { state_idx, actions: acts });
        if self.history.len() > ENGINE_MAX_HISTORY {
            self.history.remove(0);
        }
        proof {
            assert(hist_view(self.history@) =~~= push_trim_hist(
                hist_view(old(self).history@),
                (state_idx as int, self.last_actions@),
            ));
        }

        results
    }
}

/// An owned copy of an action list.
fn copy_usize_vec(v: &Vec<usize>) -> (r: Vec<usize>)
    ensures
        r@ == v@,
{
    let n = v.len();
    let mut out: Vec<usize> = Vec::new();
    let mut i: usize = 0;
    while i < n
        invariant
            i <= n,
            n == v@.len(),
            out@.len() == i,
            forall|k: int| 0 <= k < i ==> out@[k] == v@[k],
        decreases n - i,
    {
        out.push(v[i]);
        i = i + 1;
    }
    proof {
        assert(out@ =~= v@);
    }
    out
}

/// The activations of a node list.
pub open spec fn states_view(nodes: Seq<Node>) -> Seq<i64> {
    Seq::new(nodes.len(), |i: int| nodes[i].state)
}

/// The leak rates of a node list.
pub open spec fn decays_view(nodes: Seq<Node>) -> Seq<i64> {
    Seq::new(nodes.len(), |i: int| nodes[i].base_decay)
}

/// The adjacency lists of a node list.
pub open spec fn syns_view(nodes: Seq<Node>) -> Seq<Seq<Synapse>> {
    Seq::new(nodes.len(), |i: int| nodes[i].synapses@)
}

/// A synapse list with the weight of the first synapse to `to` replaced,
/// or a new synapse appended when none targets `to` yet.
pub open spec fn upd_conn_spec(s: Seq<Synapse>, to: usize, w: i64) -> Seq<Synapse>
    decreases s.len(),
{
    if s.len() == 0 {
        seq![Synapse { target_id: to, weight: w }]
    } else if s[0].target_id == to {
        s.update(0, Synapse { target_id: to, weight: w })
    } else {
        seq![s[0]] + upd_conn_spec(s.drop_first(), to, w)
    }
}

proof fn lemma_upd_conn_no_match(s: Seq<Synapse>, to: usize, w: i64)
    requires
        forall|k: int| 0 <= k < s.len() ==> (#[trigger] s[k]).target_id != to,
    ensures
        upd_conn_spec(s, to, w) == s.push(Synapse { target_id: to, weight: w }),
    decreases s.len(),
{
    if s.len() == 0 {
        assert(upd_conn_spec(s, to, w) =~= s.push(Synapse { target_id: to, weight: w }));
    } else {
        lemma_upd_conn_no_match(s.drop_first(), to, w);
        assert(seq![s[0]] + s.drop_first().push(Synapse { target_id: to, weight: w }) =~= s.push(
            Synapse { target_id: to, weight: w },
        ));
    }
}

proof fn lemma_upd_conn_match(s: Seq<Synapse>, to: usize, w: i64, k: int)
    requires
        0 <= k < s.len(),
        s[k].target_id == to,
        forall|j: int| 0 <= j < k ==> (#[trigger] s[j]).target_id != to,
    ensures
        upd_conn_spec(s, to, w) == s.update(k, Synapse { target_id: to, weight: w }),
    decreases k,
{
    if k == 0 {
    } else {
        lemma_upd_conn_match(s.drop_first(), to, w, k - 1);
        assert(seq![s[0]] + s.drop_first().update(k - 1, Synapse { target_id: to, weight: w })
            =~= s.update(k, Synapse { target_id: to, weight: w }));
    }
}

/// Replace or create the synapse toward `to` in a synapse list.
fn upd_conn(synapses: &mut Vec<Synapse>, to: usize, w: i64)
    ensures
        final(synapses)@ == upd_conn_spec(old(synapses)@, to, w),
{
    let n = synapses.len();
    let mut i: usize = 0;
    while i < n
        invariant
            i <= n,
            n == synapses@.len(),
            synapses@ == old(synapses)@,
            forall|j: int| 0 <= j < i ==> (#[trigger] synapses@[j]).target_id != to,
        decreases n - i,
    {
        if synapses[i].target_id == to {
            synapses[i] = Synapse { target_id: to, weight: w };
            proof {
                lemma_upd_conn_match(old(synapses)@, to, w, i as int);
            }
            return ;
        }
        i = i + 1;
    }
    synapses.push(Synapse { target_id: to, weight: w });
    proof {
        lemma_upd_conn_no_match(old(synapses)@, to, w);
    }
}

/// The three continuous connection weights recomputed by a topology
/// reshape: tactical, aggression and fear each feeding the reflex node.
pub open spec fn reshape_syn_spec(states: Seq<i64>, syns: Seq<Seq<Synapse>>, adrenaline: i64, temp: i64) -> Seq<
    Seq<Synapse>,
> {
    let arousal = fx_clamp_spec(fx_add_spec(states[0], adrenaline), 0, 131072);
    let w_t = fx_mul_spec(fx_clamp_spec(fx_sub_spec(FX_ONE, temp), 0, FX_ONE), fx_add_spec(FX_ONE, states[2]));
    let s1 = syns.update(2, upd_conn_spec(syns[2], 3, w_t));
    let s2 = s1.update(0, upd_conn_spec(s1[0], 3, fx_mul_spec(arousal, 98304)));
    s2.update(1, upd_conn_spec(s2[1], 3, fx_mul_spec(states[1], 131072)))
}

/// Direct inhibition of the aggression and fear nodes when the system is
/// hot and the regulator intervenes strongly.
pub open spec fn reshape_inhibit_spec(states: Seq<i64>, temp: i64, intervention: i64) -> Seq<i64> {
    if temp > 98304 && intervention > 45875 {
        states.update(0, node_inhibit_spec(states[0], 19661)).update(
            1,
            node_inhibit_spec(states[1], 13107),
        )
    } else {
        states
    }
}

/// One adjacency list with every synapse toward an over-fatigued action
/// index halved ("elastic fatigue").
pub open spec fn elastic_node_spec(s: Seq<Synapse>, fatigue: Seq<i64>) -> Seq<Synapse> {
    Seq::new(
        s.len(),
        |k: int| if s[k].target_id < fatigue.len() && fatigue[s[k].target_id as int] > 52429 {
            Synapse { target_id: s[k].target_id, weight: fx_mul_spec(s[k].weight, FX_HALF) }
        } else {
            s[k]
        },
    )
}

/// Elastic fatigue over all nodes.
pub open spec fn elastic_fatigue_spec(syns: Seq<Seq<Synapse>>, fatigue: Seq<i64>) -> Seq<Seq<Synapse>> {
    Seq::new(syns.len(), |n: int| elastic_node_spec(syns[n], fatigue))
}

/// The full topology reshape on the node views.
pub open spec fn reshape_view_spec(
    states: Seq<i64>,
    syns: Seq<Seq<Synapse>>,
    adrenaline: i64,
    temp: i64,
    intervention: i64,
    fatigue: Seq<i64>,
) -> (Seq<i64>, Seq<Seq<Synapse>>) {
    let syns1 = reshape_syn_spec(states, syns, adrenaline, temp);
    let states1 = reshape_inhibit_spec(states, temp, intervention);
    (states1, elastic_fatigue_spec(syns1, fatigue))
}

/// Halve the weight of every synapse toward an over-fatigued action.
fn elastic_node(synapses: &mut Vec<Synapse>, fatigue: &Vec<i64>)
    ensures
        final(synapses)@ == elastic_node_spec(old(synapses)@, fatigue@),
{
    let n = synapses.len();
    let mut k: usize = 0;
    while k < n
        invariant
            k <= n,
            n == synapses@.len() == old(synapses)@.len(),
            forall|j: int|
                0 <= j < k ==> synapses@[j] == elastic_node_spec(old(synapses)@, fatigue@)[j],
            forall|j: int| k <= j < n ==> synapses@[j] == old(synapses)@[j],
        decreases n - k,
    {
        let tgt = synapses[k].target_id;
        if tgt < fatigue.len() {
            if fatigue[tgt] > 52429 {
                let w = fx_mul(synapses[k].weight, FX_HALF);
                synapses[k] = Synapse { target_id: tgt, weight: w };
            }
        }
        k = k + 1;
    }
    proof {
        assert(synapses@ =~= elastic_node_spec(old(synapses)@, fatigue@));
    }
}

impl Singularity {
    /// Recompute one continuous connection weight.
    fn update_connection(&mut self, from: usize, to: usize, weight: i64)
        requires
            old(self).wf(),
            from < 4,
        ensures
            final(self).wf(),
            syns_view(final(self).nodes@) == syns_view(old(self).nodes@).update(
                from as int,
                upd_conn_spec(syns_view(old(self).nodes@)[from as int], to, weight),
            ),
            states_view(final(self).nodes@) == states_view(old(self).nodes@),
            decays_view(final(self).nodes@) == decays_view(old(self).nodes@),
            *final(self) == (Singularity { nodes: final(self).nodes, ..*old(self) }),
    {
        upd_conn(&mut self.nodes[from].synapses, to, weight);
        proof {
            assert(syns_view(self.nodes@) =~= syns_view(old(self).nodes@).update(
                from as int,
                upd_conn_spec(syns_view(old(self).nodes@)[from as int], to, weight),
            ));
            assert(states_view(self.nodes@) =~= states_view(old(self).nodes@));
            assert(decays_view(self.nodes@) =~= decays_view(old(self).nodes@));
        }
    }

    /// Halve every connection toward an over-fatigued action index.
    fn apply_elastic_fatigue(&mut self)
        requires
            old(self).wf(),
        ensures
            final(self).wf(),
            syns_view(final(self).nodes@) == elastic_fatigue_spec(
                syns_view(old(self).nodes@),
                old(self).fatigue_map@,
            ),
            states_view(final(self).nodes@) == states_view(old(self).nodes@),
            decays_view(final(self).nodes@) == decays_view(old(self).nodes@),
            *final(self) == (Singularity { nodes: final(self).nodes, ..*old(self) }),
    {
        let n = self.nodes.len();
        let mut i: usize = 0;
        while i < n
            invariant
                i <= n,
                n == self.nodes@.len() == old(self).nodes@.len(),
                forall|m: int|
                    0 <= m < i ==> (#[trigger] self.nodes@[m]).synapses@ == elastic_node_spec(
                        old(self).nodes@[m].synapses@,
                        old(self).fatigue_map@,
                    ),
                forall|m: int|
                    i <= m < n ==> (#[trigger] self.nodes@[m]).synapses@
                        == old(self).nodes@[m].synapses@,
                forall|m: int|
                    0 <= m < n ==> (#[trigger] self.nodes@[m]).state == old(self).nodes@[m].state
                        && self.nodes@[m].base_decay == old(self).nodes@[m].base_decay,
                *self == (Singularity { nodes: self.nodes, ..*old(self) }),
            decreases n - i,
        {
            elastic_node(&mut self.nodes[i].synapses, &self.fatigue_map);
            i = i + 1;
        }
        proof {
            assert(syns_view(self.nodes@) =~= elastic_fatigue_spec(
                syns_view(old(self).nodes@),
                old(self).fatigue_map@,
            ));
            assert(states_view(self.nodes@) =~= states_view(old(self).nodes@));
            assert(decays_view(self.nodes@) =~= decays_view(old(self).nodes@));
        }
    }

    /// Reshape the node topology: recompute the continuous connection
    /// weights toward the reflex node, inhibit the affect nodes directly
    /// when the system runs hot under strong regulator intervention, and
    /// relax connections toward over-fatigued actions.
    pub fn reshape_topology(&mut self)
        requires
            old(self).wf(),
        ensures
            final(self).wf(),
            final(self).last_topology_update_temp == old(self).system_temperature,
            ({
                let r = reshape_view_spec(
                    states_view(old(self).nodes@),
                    syns_view(old(self).nodes@),
                    old(self).adrenaline,
                    old(self).system_temperature,
                    fx_min_spec(fx_div_spec(old(self).horizon.glutamate_buffer, 196608), FX_ONE),
                    old(self).fatigue_map@,
                );
                states_view(final(self).nodes@) == r.0 && syns_view(final(self).nodes@) == r.1
            }),
            decays_view(final(self).nodes@) == decays_view(old(self).nodes@),
            *final(self) == (Singularity {
                nodes: final(self).nodes,
                last_topology_update_temp: final(self).last_topology_update_temp,
                ..*old(self)
            }),
    {
        self.last_topology_update_temp = self.system_temperature;
        let arousal = fx_clamp(fx_add(self.nodes[0].state, self.adrenaline), 0, 131072);
        let tactical_focus = self.nodes[2].state;
        let temp = self.system_temperature;

        let w_t = fx_mul(fx_clamp(fx_sub(FX_ONE, temp), 0, FX_ONE), fx_add(FX_ONE, tactical_focus));
        self.update_connection(2, 3, w_t);
        self.update_connection(0, 3, fx_mul(arousal, 98304));
        let fear_state = self.nodes[1].state;
        self.update_connection(1, 3, fx_mul(fear_state, 131072));

        if temp > 98304 {
            let glia_intervention = self.horizon.get_intervention_level();
            if glia_intervention > 45875 {
                self.nodes[0].apply_inhibition(19661);
                self.nodes[1].apply_inhibition(13107);
            }
        }
        proof {
            assert(states_view(self.nodes@) =~= reshape_inhibit_spec(
                states_view(old(self).nodes@),
                old(self).system_temperature,
                fx_min_spec(fx_div_spec(old(self).horizon.glutamate_buffer, 196608), FX_ONE),
            ));
            assert(syns_view(self.nodes@) =~= reshape_syn_spec(
                states_view(old(self).nodes@),
                syns_view(old(self).nodes@),
                old(self).adrenaline,
                old(self).system_temperature,
            ));
        }
        self.apply_elastic_fatigue();
    }
}

/// The credit-assignment discount after `j` steps back in time (0.9^j).
pub open spec fn discount_at(j: int) -> i64
    decreases j,
{
    if j <= 0 {
        FX_ONE
    } else {
        fx_mul_spec(discount_at(j - 1), 58982)
    }
}

/// Discount below which the backward walk stops (0.01).
pub const ENGINE_DISCOUNT_FLOOR: i64 = 655;

/// How many remembered decisions the backward walk visits.
pub open spec fn learn_steps_rec(len: int, j: int) -> int
    decreases len - j,
{
    if j >= len {
        len
    } else if discount_at(j) < ENGINE_DISCOUNT_FLOOR {
        j
    } else {
        learn_steps_rec(len, j + 1)
    }
}

/// A success count raised by one, saturating.
pub open spec fn sat_inc(c: usize) -> usize {
    if c == usize::MAX {
        c
    } else {
        (c + 1) as usize
    }
}

/// The learned-rule list with the first rule for (state, action) counted
/// up, or a fresh rule appended when none exists.
pub open spec fn bump_rules_spec(rules: Seq<(usize, usize, usize)>, state: usize, action: usize) -> Seq<
    (usize, usize, usize),
>
    decreases rules.len(),
{
    if rules.len() == 0 {
        seq![(state, action, 1usize)]
    } else if rules[0].0 == state && rules[0].1 == action {
        rules.update(0, (state, action, sat_inc(rules[0].2)))
    } else {
        seq![rules[0]] + bump_rules_spec(rules.drop_first(), state, action)
    }
}

proof fn lemma_bump_no_match(rules: Seq<(usize, usize, usize)>, state: usize, action: usize)
    requires
        forall|k: int|
            0 <= k < rules.len() ==> !((#[trigger] rules[k]).0 == state && rules[k].1 == action),
    ensures
        bump_rules_spec(rules, state, action) == rules.push((state, action, 1usize)),
    decreases rules.len(),
{
    if rules.len() == 0 {
        assert(bump_rules_spec(rules, state, action) =~= rules.push((state, action, 1usize)));
    } else {
        lemma_bump_no_match(rules.drop_first(), state, action);
        assert(seq![rules[0]] + rules.drop_first().push((state, action, 1usize)) =~= rules.push(
            (state, action, 1usize),
        ));
    }
}

proof fn lemma_bump_match(rules: Seq<(usize, usize, usize)>, state: usize, action: usize, k: int)
    requires
        0 <= k < rules.len(),
        rules[k].0 == state && rules[k].1 == action,
        forall|j: int|
            0 <= j < k ==> !((#[trigger] rules[j]).0 == state && rules[j].1 == action),
    ensures
        bump_rules_spec(rules, state, action) == rules.update(
            k,
            (state, action, sat_inc(rules[k].2)),
        ),
    decreases k,
{
    if k == 0 {
    } else {
        lemma_bump_match(rules.drop_first(), state, action, k - 1);
        assert(seq![rules[0]] + rules.drop_first().update(k - 1, (state, action, sat_inc(rules[k].2)))
            =~= rules.update(k, (state, action, sat_inc(rules[k].2))));
    }
}

/// Upper cap of a penalty cell (10.0).
pub const ENGINE_PENALTY_CAP: i64 = 655360;

/// A range of the penalty matrix scaled by a factor.
pub open spec fn penalty_scale_range_spec(pm: Seq<i64>, start: int, len: int, factor: i64) -> Seq<i64> {
    Seq::new(
        pm.len(),
        |i: int| if start <= i < start + len {
            fx_mul_spec(pm[i], factor)
        } else {
            pm[i]
        },
    )
}

/// A range of the penalty matrix raised by an amount, capped.
pub open spec fn penalty_bump_range_spec(pm: Seq<i64>, start: int, len: int, amt: i64) -> Seq<i64> {
    Seq::new(
        pm.len(),
        |i: int| if start <= i < start + len {
            fx_min_spec(fx_add_spec(pm[i], amt), ENGINE_PENALTY_CAP)
        } else {
            pm[i]
        },
    )
}

/// The fatigue map after crediting one remembered decision: every acted-on
/// index rises on failure and falls on success, weighted by the step's
/// discount, clamped into [0, 1].
pub open spec fn fatigue_step_fold(f: Seq<i64>, actions: Seq<usize>, dr: i64, discount: i64, n: int) -> Seq<
    i64,
>
    decreases n,
{
    if n <= 0 {
        f
    } else {
        let prev = fatigue_step_fold(f, actions, dr, discount, n - 1);
        let idx = actions[n - 1] as int;
        if dr < 0 {
            prev.update(idx, fx_min_spec(fx_add_spec(prev[idx], fx_mul_spec(13107, discount)), FX_ONE))
        } else {
            prev.update(idx, fx_max_spec(fx_sub_spec(prev[idx], fx_mul_spec(19661, discount)), 0))
        }
    }
}

/// The mutable learning state carried through the backward walk.
pub struct LearnImage {
    pub wave: WavePicture,
    pub rules: Seq<(usize, usize, usize)>,
    pub penalty: Seq<i64>,
    pub fatigue: Seq<i64>,
}

/// Reward threshold for acquiring a learned rule (1.2).
pub const ENGINE_RULE_THRESHOLD: i64 = 78643;

/// One step of the backward walk over the decision history.
pub open spec fn learn_step_spec(
    img: LearnImage,
    e: Experience,
    reward: i64,
    j: int,
    temp: i64,
    action_size: int,
    dim: int,
    conds_empty: bool,
) -> LearnImage {
    let dr = fx_mul_spec(reward, discount_at(j));
    let wave2 = crate::mwso::adapt_spec(img.wave, dr, e.actions@, temp, action_size, dim);
    let bpa = dim / action_size;
    let start = (e.state_idx as int) * dim + (e.actions@[0] as int) * bpa;
    let rules2 = if conds_empty && dr > ENGINE_RULE_THRESHOLD {
        bump_rules_spec(img.rules, e.state_idx, e.actions@[0])
    } else {
        img.rules
    };
    let pen2 = if conds_empty && dr > ENGINE_RULE_THRESHOLD {
        penalty_scale_range_spec(img.penalty, start, bpa, FX_HALF)
    } else if conds_empty && dr < 0 {
        penalty_bump_range_spec(img.penalty, start, bpa, fx_mul_spec(fx_abs_spec(dr), 131072))
    } else {
        img.penalty
    };
    let fat2 = fatigue_step_fold(img.fatigue, e.actions@, dr, discount_at(j), e.actions@.len() as int);
    LearnImage { wave: wave2, rules: rules2, penalty: pen2, fatigue: fat2 }
}

/// The backward walk over the `n` most recent remembered decisions,
/// newest first, with geometrically discounted rewards.
pub open spec fn learn_walk_spec(
    img: LearnImage,
    hist: Seq<Experience>,
    reward: i64,
    temp: i64,
    action_size: int,
    dim: int,
    conds_empty: bool,
    n: int,
) -> LearnImage
    decreases n,
{
    if n <= 0 {
        img
    } else {
        learn_step_spec(
            learn_walk_spec(img, hist, reward, temp, action_size, dim, conds_empty, n - 1),
            hist[hist.len() - n],
            reward,
            n - 1,
            temp,
            action_size,
            dim,
            conds_empty,
        )
    }
}

/// Momentum boosted over the first `n` chosen actions on positive reward.
pub open spec fn momentum_boost_fold(m: Seq<i64>, la: Seq<usize>, reward: i64, n: int) -> Seq<i64>
    decreases n,
{
    if n <= 0 {
        m
    } else {
        let prev = momentum_boost_fold(m, la, reward, n - 1);
        let idx = la[n - 1] as int;
        prev.update(idx, fx_min_spec(fx_add_spec(prev[idx], fx_mul_spec(13107, reward)), 131072))
    }
}

/// Sum of the listed activations, over a plain state view.
pub open spec fn total_activity_view(states: Seq<i64>, indices: Seq<usize>, n: int) -> i64
    decreases n,
{
    if n <= 0 {
        0
    } else {
        let prev = total_activity_view(states, indices, n - 1);
        let idx = indices[n - 1];
        if idx < states.len() {
            fx_add_spec(prev, states[idx as int])
        } else {
            prev
        }
    }
}

/// Regulator inhibition over a plain state view.
pub open spec fn regulate_inhibit_view(states: Seq<i64>, indices: Seq<usize>, n: int) -> Seq<i64>
    decreases n,
{
    if n <= 0 {
        states
    } else {
        let prev = regulate_inhibit_view(states, indices, n - 1);
        let idx = indices[n - 1];
        if idx < prev.len() && prev[idx as int] > crate::horizon::HORIZON_ACTIVE_LEVEL {
            prev.update(
                idx as int,
                node_inhibit_spec(prev[idx as int], crate::horizon::HORIZON_INHIBITION),
            )
        } else {
            prev
        }
    }
}

proof fn lemma_total_activity_views(nodes: Seq<Node>, indices: Seq<usize>, n: int)
    requires
        0 <= n <= indices.len(),
    ensures
        total_activity_spec(nodes, indices, n) == total_activity_view(states_view(nodes), indices, n),
    decreases n,
{
    if n > 0 {
        lemma_total_activity_views(nodes, indices, n - 1);
    }
}

proof fn lemma_inhibit_fold_views(nodes: Seq<Node>, indices: Seq<usize>, n: int)
    requires
        0 <= n <= indices.len(),
    ensures
        inhibit_fold_spec(nodes, indices, n).len() == nodes.len(),
        states_view(inhibit_fold_spec(nodes, indices, n)) == regulate_inhibit_view(
            states_view(nodes),
            indices,
            n,
        ),
        syns_view(inhibit_fold_spec(nodes, indices, n)) == syns_view(nodes),
        decays_view(inhibit_fold_spec(nodes, indices, n)) == decays_view(nodes),
    decreases n,
{
    if n <= 0 {
        assert(states_view(inhibit_fold_spec(nodes, indices, n)) =~= regulate_inhibit_view(
            states_view(nodes),
            indices,
            n,
        ));
        assert(syns_view(inhibit_fold_spec(nodes, indices, n)) =~= syns_view(nodes));
        assert(decays_view(inhibit_fold_spec(nodes, indices, n)) =~= decays_view(nodes));
    } else {
        lemma_inhibit_fold_views(nodes, indices, n - 1);
        assert(states_view(inhibit_fold_spec(nodes, indices, n)) =~= regulate_inhibit_view(
            states_view(nodes),
            indices,
            n,
        ));
        assert(syns_view(inhibit_fold_spec(nodes, indices, n)) =~= syns_view(nodes));
        assert(decays_view(inhibit_fold_spec(nodes, indices, n)) =~= decays_view(nodes));
    }
}

/// The node activations after the digestion update pass, processed in
/// index order against a fixed snapshot of all activations.
pub open spec fn nodes_states_fold(
    states0: Seq<i64>,
    decays: Seq<i64>,
    syns: Seq<Seq<Synapse>>,
    inputs: Seq<i64>,
    snapshot: Seq<i64>,
    urgency: i64,
    temp: i64,
    n: int,
) -> Seq<i64>
    decreases n,
{
    if n <= 0 {
        states0
    } else {
        let prev = nodes_states_fold(states0, decays, syns, inputs, snapshot, urgency, temp, n - 1);
        let input = if n - 1 < inputs.len() {
            inputs[n - 1]
        } else {
            0i64
        };
        prev.update(
            n - 1,
            crate::node::node_update_state_spec(
                prev[n - 1],
                decays[n - 1],
                syns[n - 1],
                input,
                urgency,
                temp,
                snapshot,
            ),
        )
    }
}

/// Temperature after digesting an experience: hard reset on a clear win,
/// exponential cooling on success, frustration heating otherwise.
pub open spec fn digest_temp_spec(temp: i64, reward: i64, td: i64, conds_empty: bool) -> i64 {
    if reward > 98304 {
        3277
    } else if reward > 0 {
        let cooling: i64 = if conds_empty {
            52429
        } else {
            55706
        };
        fx_max_spec(fx_sub_spec(fx_mul_spec(temp, cooling), fx_mul_spec(reward, 6554)), 3277)
    } else {
        fx_min_spec(fx_add_spec(temp, fx_mul_spec(td, 13107)), 131072)
    }
}

/// Everything the digestion pass produces.
pub struct DigestOut {
    pub re: Seq<i64>,
    pub im: Seq<i64>,
    pub theta: Seq<i64>,
    pub temp: i64,
    pub node_states: Seq<i64>,
    pub node_syns: Seq<Seq<Synapse>>,
    pub buffer: i64,
    pub last_topology: i64,
}

/// The digestion pass: temperature update, symbolic reward and penalty
/// pulses into the substrate plus one step, a node update round, a
/// conditional topology reshape, and homeostatic regulation.
#[verifier::opaque]
pub open spec fn digest_spec(
    re: Seq<i64>,
    im: Seq<i64>,
    theta: Seq<i64>,
    freq: Seq<i64>,
    gravity: Seq<i64>,
    mem_re: Seq<i64>,
    mem_im: Seq<i64>,
    ents: Seq<(usize, usize, i64)>,
    dim: int,
    temp: i64,
    node_states: Seq<i64>,
    node_decays: Seq<i64>,
    node_syns: Seq<Seq<Synapse>>,
    buffer: i64,
    threshold: i64,
    last_topology: i64,
    adrenaline: i64,
    fatigue: Seq<i64>,
    td: i64,
    reward: i64,
    penalty: i64,
    conds_empty: bool,
) -> DigestOut {
    let temp2 = digest_temp_spec(temp, reward, td, conds_empty);
    let empty_pen = Seq::<i64>::empty();
    let inj1 = crate::mwso::inject_state_spec(re, im, theta, empty_pen, dim, 0, reward);
    let inj2 = crate::mwso::inject_state_spec(inj1.0, inj1.1, theta, empty_pen, dim, 1, fx_sub_spec(0, penalty));
    let stepped = crate::mwso::step_core_spec(
        inj2.0,
        inj2.1,
        theta,
        freq,
        gravity,
        mem_re,
        mem_im,
        ents,
        dim,
        3277,
        0,
        0,
        temp2,
        empty_pen,
    );
    let urgency = fx_min_spec(fx_mul_spec(fx_add_spec(reward, penalty), 327680), FX_ONE);
    let states1 = nodes_states_fold(
        node_states,
        node_decays,
        node_syns,
        Seq::<i64>::empty(),
        node_states,
        urgency,
        temp2,
        4,
    );
    let due_reshape = urgency > 32768 || fx_abs_spec(fx_sub_spec(temp2, last_topology)) > 3277;
    let intervention = fx_min_spec(fx_div_spec(buffer, 196608), FX_ONE);
    let reshaped = reshape_view_spec(states1, node_syns, adrenaline, temp2, intervention, fatigue);
    let states2 = if due_reshape {
        reshaped.0
    } else {
        states1
    };
    let syns2 = if due_reshape {
        reshaped.1
    } else {
        node_syns
    };
    let lt2: i64 = if due_reshape {
        temp2
    } else {
        last_topology
    };
    let idxs = seq![0usize, 1usize, 2usize, 3usize];
    let total = total_activity_view(states2, idxs, 4);
    let new_buffer = fx_mul_spec(fx_add_spec(buffer, fx_mul_spec(total, crate::horizon::HORIZON_UPTAKE)), crate::horizon::HORIZON_DECAY);
    let due_reg = temp2 > FX_ONE && (total > threshold || new_buffer
        > crate::horizon::HORIZON_BUFFER_LIMIT);
    let states3 = if due_reg {
        regulate_inhibit_view(states2, idxs, 4)
    } else {
        states2
    };
    DigestOut {
        re: stepped.1,
        im: stepped.2,
        theta: stepped.0,
        temp: temp2,
        node_states: states3,
        node_syns: syns2,
        buffer: new_buffer,
        last_topology: lt2,
    }
}

impl Singularity {
    /// Digest a scalar experience: update the temperature, pulse the
    /// symbolic reward and penalty into the substrate and step it, update
    /// every node, reshape the topology when the change is significant,
    /// and let the homeostatic regulator act.
    #[verifier::rlimit(100)]
    pub fn digest_experience(&mut self, td_error: i64, reward: i64, penalty: i64)
        requires
            old(self).wf(),
        ensures
            final(self).wf(),
            ({
                let e = *old(self);
                let d = digest_spec(
                    e.mwso.psi_real@,
                    e.mwso.psi_imag@,
                    e.mwso.theta@,
                    e.mwso.frequencies@,
                    e.mwso.gravity_field@,
                    e.mwso.memory_psi_real@,
                    e.mwso.memory_psi_imag@,
                    e.mwso.entanglements@,
                    e.mwso.dim as int,
                    e.system_temperature,
                    states_view(e.nodes@),
                    decays_view(e.nodes@),
                    syns_view(e.nodes@),
                    e.horizon.glutamate_buffer,
                    e.horizon.homeostatic_threshold,
                    e.last_topology_update_temp,
                    e.adrenaline,
                    e.fatigue_map@,
                    td_error,
                    reward,
                    penalty,
                    e.active_conditions@.len() == 0,
                );
                &&& final(self).mwso.psi_real@ == d.re
                &&& final(self).mwso.psi_imag@ == d.im
                &&& final(self).mwso.theta@ == d.theta
                &&& final(self).system_temperature == d.temp
                &&& states_view(final(self).nodes@) == d.node_states
                &&& syns_view(final(self).nodes@) == d.node_syns
                &&& final(self).horizon.glutamate_buffer == d.buffer
                &&& final(self).last_topology_update_temp == d.last_topology
            }),
            decays_view(final(self).nodes@) == decays_view(old(self).nodes@),
            final(self).horizon.homeostatic_threshold == old(self).horizon.homeostatic_threshold,
            final(self).mwso.frequencies == old(self).mwso.frequencies,
            final(self).mwso.gravity_field == old(self).mwso.gravity_field,
            final(self).mwso.entanglements == old(self).mwso.entanglements,
            final(self).mwso.memory_psi_real == old(self).mwso.memory_psi_real,
            final(self).mwso.memory_psi_imag == old(self).mwso.memory_psi_imag,
            final(self).mwso.dim == old(self).mwso.dim,
            final(self).mwso.noise == old(self).mwso.noise,
            *final(self) == (Singularity {
                nodes: final(self).nodes,
                horizon: final(self).horizon,
                mwso: final(self).mwso,
                system_temperature: final(self).system_temperature,
                last_topology_update_temp: final(self).last_topology_update_temp,
                ..*old(self)
            }),
    {
        proof {
            reveal(crate::singularity::digest_spec);
        }
        if reward > 98304 {
            self.system_temperature = 3277;
        } else if reward > 0 {
            let cooling: i64 = if self.active_conditions.len() == 0 {
                52429
            } else {
                55706
            };
            self.system_temperature = fx_max(
                fx_sub(fx_mul(self.system_temperature, cooling), fx_mul(reward, 6554)),
                3277,
            );
        } else {
            self.system_temperature = fx_min(
                fx_add(self.system_temperature, fx_mul(td_error, 13107)),
                131072,
            );
        }

        let urgency = fx_min(fx_mul(fx_add(reward, penalty), 327680), FX_ONE);
        let empty_pen: Vec<i64> = Vec::new();
        self.mwso.inject_state(0, reward, &empty_pen);
        self.mwso.inject_state(1, fx_sub(0, penalty), &empty_pen);
        self.mwso.step_core(3277, 0, 0, self.system_temperature, &empty_pen);

        let mut states_snapshot: Vec<i64> = Vec::new();
        let mut s: usize = 0;
        while s < 4
            invariant
                s <= 4,
                self.wf(),
                states_snapshot@.len() == s,
                forall|k: int| 0 <= k < s ==> states_snapshot@[k] == self.nodes@[k].state,
            decreases 4 - s,
        {
            states_snapshot.push(self.nodes[s].state);
            s = s + 1;
        }
        proof {
            assert(states_snapshot@ =~= states_view(self.nodes@));
        }

        let ghost states0 = states_view(self.nodes@);
        let ghost decays0 = decays_view(self.nodes@);
        let ghost syns0 = syns_view(self.nodes@);
        let ghost mwso_mid = self.mwso;
        let temp_now = self.system_temperature;
        let mut i: usize = 0;
        while i < 4
            invariant
                i <= 4,
                self.wf(),
                temp_now == self.system_temperature,
                states_snapshot@ == states0,
                states_view(self.nodes@) == nodes_states_fold(
                    states0,
                    decays0,
                    syns0,
                    Seq::<i64>::empty(),
                    states0,
                    urgency,
                    temp_now,
                    i as int,
                ),
                decays_view(self.nodes@) == decays0,
                syns_view(self.nodes@) == syns0,
                self.mwso == mwso_mid,
                self.nodes@.len() == 4,
                *self == (Singularity {
                    nodes: self.nodes,
                    mwso: self.mwso,
                    system_temperature: self.system_temperature,
                    ..*old(self)
                }),
            decreases 4 - i,
        {
            self.nodes[i].update(0, urgency, temp_now, &states_snapshot);
            proof {
                assert(states_view(self.nodes@) =~= nodes_states_fold(
                    states0,
                    decays0,
                    syns0,
                    Seq::<i64>::empty(),
                    states0,
                    urgency,
                    temp_now,
                    i as int + 1,
                ));
                assert(decays_view(self.nodes@) =~= decays0);
                assert(syns_view(self.nodes@) =~= syns0);
            }
            i = i + 1;
        }

        let diff = fx_abs(fx_sub(self.system_temperature, self.last_topology_update_temp));
        if urgency > 32768 || diff > 3277 {
            self.reshape_topology();
        }

        let mut all_indices: Vec<usize> = Vec::new();
        all_indices.push(0);
        all_indices.push(1);
        all_indices.push(2);
        all_indices.push(3);
        proof {
            assert(all_indices@ =~= seq![0usize, 1usize, 2usize, 3usize]);
        }
        let ghost nodes_before_reg = self.nodes@;
        self.horizon.regulate(self.system_temperature, &all_indices, &mut self.nodes);
        proof {
            lemma_total_activity_views(nodes_before_reg, seq![0usize, 1usize, 2usize, 3usize], 4);
            lemma_inhibit_fold_views(nodes_before_reg, seq![0usize, 1usize, 2usize, 3usize], 4);
        }
    }

    /// Step the substrate once and update every node from external input
    /// signals; missing signals count as zero.
    pub fn update_all_nodes(&mut self, input_signals: &Vec<i64>, urgency: i64)
        requires
            old(self).wf(),
        ensures
            final(self).wf(),
            ({
                let e = *old(self);
                let empty_pen = Seq::<i64>::empty();
                let stepped = crate::mwso::step_core_spec(
                    e.mwso.psi_real@,
                    e.mwso.psi_imag@,
                    e.mwso.theta@,
                    e.mwso.frequencies@,
                    e.mwso.gravity_field@,
                    e.mwso.memory_psi_real@,
                    e.mwso.memory_psi_imag@,
                    e.mwso.entanglements@,
                    e.mwso.dim as int,
                    6554,
                    0,
                    0,
                    e.system_temperature,
                    empty_pen,
                );
                &&& final(self).mwso.theta@ == stepped.0
                &&& final(self).mwso.psi_real@ == stepped.1
                &&& final(self).mwso.psi_imag@ == stepped.2
                &&& states_view(final(self).nodes@) == nodes_states_fold(
                    states_view(e.nodes@),
                    decays_view(e.nodes@),
                    syns_view(e.nodes@),
                    input_signals@,
                    states_view(e.nodes@),
                    urgency,
                    e.system_temperature,
                    4,
                )
            }),
            decays_view(final(self).nodes@) == decays_view(old(self).nodes@),
            syns_view(final(self).nodes@) == syns_view(old(self).nodes@),
            final(self).mwso.frequencies == old(self).mwso.frequencies,
            final(self).mwso.gravity_field == old(self).mwso.gravity_field,
            final(self).mwso.entanglements == old(self).mwso.entanglements,
            final(self).mwso.memory_psi_real == old(self).mwso.memory_psi_real,
            final(self).mwso.memory_psi_imag == old(self).mwso.memory_psi_imag,
            final(self).mwso.dim == old(self).mwso.dim,
            final(self).mwso.noise == old(self).mwso.noise,
            *final(self) == (Singularity { nodes: final(self).nodes, mwso: final(self).mwso, ..*old(self) }),
    {
        let empty_pen: Vec<i64> = Vec::new();
        self.mwso.step_core(6554, 0, 0, self.system_temperature, &empty_pen);

        let mut states_snapshot: Vec<i64> = Vec::new();
        let mut s: usize = 0;
        while s < 4
            invariant
                s <= 4,
                self.wf(),
                states_snapshot@.len() == s,
                forall|k: int| 0 <= k < s ==> states_snapshot@[k] == self.nodes@[k].state,
            decreases 4 - s,
        {
            states_snapshot.push(self.nodes[s].state);
            s = s + 1;
        }
        proof {
            assert(states_snapshot@ =~= states_view(self.nodes@));
        }

        let ghost states0 = states_view(self.nodes@);
        let ghost decays0 = decays_view(self.nodes@);
        let ghost syns0 = syns_view(self.nodes@);
        let ghost mwso_mid = self.mwso;
        let temp_now = self.system_temperature;
        let mut i: usize = 0;
        while i < 4
            invariant
                i <= 4,
                self.wf(),
                temp_now == self.system_temperature,
                states_snapshot@ == states0,
                states_view(self.nodes@) == nodes_states_fold(
                    states0,
                    decays0,
                    syns0,
                    input_signals@,
                    states0,
                    urgency,
                    temp_now,
                    i as int,
                ),
                decays_view(self.nodes@) == decays0,
                syns_view(self.nodes@) == syns0,
                self.mwso == mwso_mid,
                self.nodes@.len() == 4,
                *self == (Singularity { nodes: self.nodes, mwso: self.mwso, ..*old(self) }),
            decreases 4 - i,
        {
            let input: i64 = if i < input_signals.len() {
                input_signals[i]
            } else {
                0
            };
            self.nodes[i].update(input, urgency, temp_now, &states_snapshot);
            proof {
                assert(states_view(self.nodes@) =~= nodes_states_fold(
                    states0,
                    decays0,
                    syns0,
                    input_signals@,
                    states0,
                    urgency,
                    temp_now,
                    i as int + 1,
                ));
                assert(decays_view(self.nodes@) =~= decays0);
                assert(syns_view(self.nodes@) =~= syns0);
            }
            i = i + 1;
        }
    }
}

/// Count up (or create) the learned rule for one state-action pair.
fn bump_rule(rules: &mut Vec<(usize, usize, usize)>, state: usize, action: usize)
    ensures
        final(rules)@ == bump_rules_spec(old(rules)@, state, action),
{
    let n = rules.len();
    let mut i: usize = 0;
    while i < n
        invariant
            i <= n,
            n == rules@.len(),
            rules@ == old(rules)@,
            forall|j: int|
                0 <= j < i ==> !((#[trigger] rules@[j]).0 == state && rules@[j].1 == action),
        decreases n - i,
    {
        let rs = rules[i].0;
        let ra = rules[i].1;
        if rs == state && ra == action {
            let c = rules[i].2;
            let nc: usize = if c == usize::MAX {
                c
            } else {
                c + 1
            };
            rules[i] = (state, action, nc);
            proof {
                lemma_bump_match(old(rules)@, state, action, i as int);
            }
            return ;
        }
        i = i + 1;
    }
    rules.push((state, action, 1));
    proof {
        lemma_bump_no_match(old(rules)@, state, action);
    }
}

/// Scale a range of the penalty matrix.
fn penalty_scale_range(pm: &mut Vec<i64>, start: usize, len: usize, factor: i64)
    requires
        start + len <= old(pm)@.len(),
    ensures
        final(pm)@ == penalty_scale_range_spec(old(pm)@, start as int, len as int, factor),
{
    let plen: usize = pm.len();
    let mut j: usize = 0;
    while j < len
        invariant
            j <= len,
            start + len <= plen,
            plen == pm@.len(),
            pm@.len() == old(pm)@.len(),
            forall|k: int|
                start <= k < start + j ==> pm@[k] == fx_mul_spec(old(pm)@[k], factor),
            forall|k: int| 0 <= k < start ==> pm@[k] == old(pm)@[k],
            forall|k: int| start + j <= k < pm@.len() ==> pm@[k] == old(pm)@[k],
        decreases len - j,
    {
        let nv = fx_mul(pm[start + j], factor);
        pm.set(start + j, nv);
        j = j + 1;
    }
    proof {
        assert(pm@ =~= penalty_scale_range_spec(old(pm)@, start as int, len as int, factor));
    }
}

/// Raise a range of the penalty matrix, capped.
fn penalty_bump_range(pm: &mut Vec<i64>, start: usize, len: usize, amt: i64)
    requires
        start + len <= old(pm)@.len(),
    ensures
        final(pm)@ == penalty_bump_range_spec(old(pm)@, start as int, len as int, amt),
{
    let plen: usize = pm.len();
    let mut j: usize = 0;
    while j < len
        invariant
            j <= len,
            start + len <= plen,
            plen == pm@.len(),
            pm@.len() == old(pm)@.len(),
            forall|k: int|
                start <= k < start + j ==> pm@[k] == fx_min_spec(
                    fx_add_spec(old(pm)@[k], amt),
                    ENGINE_PENALTY_CAP,
                ),
            forall|k: int| 0 <= k < start ==> pm@[k] == old(pm)@[k],
            forall|k: int| start + j <= k < pm@.len() ==> pm@[k] == old(pm)@[k],
        decreases len - j,
    {
        let nv = fx_min(fx_add(pm[start + j], amt), ENGINE_PENALTY_CAP);
        pm.set(start + j, nv);
        j = j + 1;
    }
    proof {
        assert(pm@ =~= penalty_bump_range_spec(old(pm)@, start as int, len as int, amt));
    }
}

/// Apply the per-step fatigue credit of one remembered decision.
fn fatigue_step(f: &mut Vec<i64>, actions: &Vec<usize>, dr: i64, discount: i64)
    requires
        forall|k: int| 0 <= k < actions@.len() ==> (#[trigger] actions@[k]) < old(f)@.len(),
    ensures
        final(f)@ == fatigue_step_fold(old(f)@, actions@, dr, discount, actions@.len() as int),
        final(f)@.len() == old(f)@.len(),
{
    let n = actions.len();
    let mut i: usize = 0;
    while i < n
        invariant
            i <= n,
            n == actions@.len(),
            f@.len() == old(f)@.len(),
            forall|k: int| 0 <= k < n ==> (#[trigger] actions@[k]) < f@.len(),
            f@ == fatigue_step_fold(old(f)@, actions@, dr, discount, i as int),
        decreases n - i,
    {
        let idx = actions[i];
        if dr < 0 {
            let nv = fx_min(fx_add(f[idx], fx_mul(13107, discount)), FX_ONE);
            f.set(idx, nv);
        } else {
            let nv = fx_max(fx_sub(f[idx], fx_mul(19661, discount)), 0);
            f.set(idx, nv);
        }
        i = i + 1;
    }
}

impl Singularity {
    /// Multi-step credit assignment from a scalar reward: walk the
    /// remembered decisions newest to oldest with a geometrically
    /// discounted reward, adapting the substrate and the symbolic
    /// bookkeeping at every step (rule acquisition and penalties only in
    /// pure-autonomous mode), update the action momentum, decay the global
    /// penalty and fatigue fields, digest the experience, and clear the
    /// history.
    #[verifier::rlimit(100)]
    pub fn learn(&mut self, reward: i64)
        requires
            old(self).wf(),
        ensures
            final(self).wf(),
            ({
                let e = *old(self);
                let conds_empty = e.active_conditions@.len() == 0;
                let img0 = LearnImage {
                    wave: picture_of(e.mwso),
                    rules: e.learned_rules@,
                    penalty: e.penalty_matrix@,
                    fatigue: e.fatigue_map@,
                };
                let n = learn_steps_rec(e.history@.len() as int, 0);
                let walked = learn_walk_spec(
                    img0,
                    e.history@,
                    reward,
                    e.system_temperature,
                    e.action_size as int,
                    e.mwso.dim as int,
                    conds_empty,
                    n,
                );
                let m1 = if reward > 6554 {
                    momentum_boost_fold(e.action_momentum@, e.last_actions@, reward, e.last_actions@.len() as int)
                } else if reward < -32768 {
                    scaled_spec(e.action_momentum@, 13107)
                } else {
                    e.action_momentum@
                };
                let m2 = scaled_spec(m1, 62259);
                let pen2 = scaled_spec(walked.penalty, 65208);
                let fat2 = scaled_spec(walked.fatigue, 64225);
                let td = fx_abs_spec(reward);
                let pz: i64 = if reward < 0 {
                    fx_abs_spec(reward)
                } else {
                    0
                };
                let d = digest_spec(
                    walked.wave.re,
                    walked.wave.im,
                    walked.wave.theta,
                    walked.wave.freq,
                    walked.wave.gravity,
                    walked.wave.mem_re,
                    walked.wave.mem_im,
                    e.mwso.entanglements@,
                    e.mwso.dim as int,
                    e.system_temperature,
                    states_view(e.nodes@),
                    decays_view(e.nodes@),
                    syns_view(e.nodes@),
                    e.horizon.glutamate_buffer,
                    e.horizon.homeostatic_threshold,
                    e.last_topology_update_temp,
                    e.adrenaline,
                    fat2,
                    td,
                    reward,
                    pz,
                    conds_empty,
                );
                &&& final(self).mwso.psi_real@ == d.re
                &&& final(self).mwso.psi_imag@ == d.im
                &&& final(self).mwso.theta@ == d.theta
                &&& final(self).mwso.frequencies@ == walked.wave.freq
                &&& final(self).mwso.gravity_field@ == walked.wave.gravity
                &&& final(self).mwso.memory_psi_real@ == walked.wave.mem_re
                &&& final(self).mwso.memory_psi_imag@ == walked.wave.mem_im
                &&& final(self).system_temperature == d.temp
                &&& states_view(final(self).nodes@) == d.node_states
                &&& syns_view(final(self).nodes@) == d.node_syns
                &&& final(self).horizon.glutamate_buffer == d.buffer
                &&& final(self).last_topology_update_temp == d.last_topology
                &&& final(self).learned_rules@ == walked.rules
                &&& final(self).penalty_matrix@ == pen2
                &&& final(self).fatigue_map@ == fat2
                &&& final(self).action_momentum@ == m2
            }),
            final(self).history@.len() == 0,
            decays_view(final(self).nodes@) == decays_view(old(self).nodes@),
            final(self).horizon.homeostatic_threshold == old(self).horizon.homeostatic_threshold,
            final(self).mwso.entanglements == old(self).mwso.entanglements,
            final(self).mwso.dim == old(self).mwso.dim,
            final(self).mwso.noise == old(self).mwso.noise,
            final(self).nodes@.len() == 4,
            final(self).bootstrapper == old(self).bootstrapper,
            final(self).active_conditions == old(self).active_conditions,
            final(self).adrenaline == old(self).adrenaline,
            final(self).frustration == old(self).frustration,
            final(self).velocity_trust == old(self).velocity_trust,
            final(self).morale == old(self).morale,
            final(self).patience == old(self).patience,
            final(self).category_sizes == old(self).category_sizes,
            final(self).action_size == old(self).action_size,
            final(self).state_size == old(self).state_size,
            final(self).last_actions == old(self).last_actions,
            final(self).last_state_idx == old(self).last_state_idx,
            final(self).input_history == old(self).input_history,
            final(self).max_history == old(self).max_history,
            final(self).exploration_beta == old(self).exploration_beta,
    {
        let conds_empty = self.active_conditions.len() == 0;
        let dim = self.mwso.dim;
        let action_size = self.action_size;
        let bpa = dim / action_size;
        let temp0 = self.system_temperature;
        proof {
            assert(dim / action_size <= dim) by (nonlinear_arith)
                requires
                    1 <= action_size,
                    0 <= dim,
            ;
        }

        let hist_n = self.history.len();
        let ghost img0 = LearnImage {
            wave: picture_of(old(self).mwso),
            rules: old(self).learned_rules@,
            penalty: old(self).penalty_matrix@,
            fatigue: old(self).fatigue_map@,
        };
        let mut discount: i64 = FX_ONE;
        let mut j: usize = 0;
        while j < hist_n && discount >= ENGINE_DISCOUNT_FLOOR
            invariant
                j <= hist_n,
                hist_n == self.history@.len(),
                self.wf(),
                self.mwso.dim == dim,
                self.action_size == action_size,
                self.system_temperature == temp0,
                bpa == dim / action_size,
                bpa <= dim,
                conds_empty == (self.active_conditions@.len() == 0),
                discount == discount_at(j as int),
                learn_steps_rec(hist_n as int, j as int) == learn_steps_rec(hist_n as int, 0),
                ({
                    let walked = learn_walk_spec(
                        img0,
                        self.history@,
                        reward,
                        temp0,
                        action_size as int,
                        dim as int,
                        conds_empty,
                        j as int,
                    );
                    &&& picture_of(self.mwso) == walked.wave
                    &&& self.learned_rules@ == walked.rules
                    &&& self.penalty_matrix@ == walked.penalty
                    &&& self.fatigue_map@ == walked.fatigue
                }),
                self.mwso.entanglements == old(self).mwso.entanglements,
                self.mwso.noise == old(self).mwso.noise,
                self.history == old(self).history,
                *self == (Singularity {
                    mwso: self.mwso,
                    learned_rules: self.learned_rules,
                    penalty_matrix: self.penalty_matrix,
                    fatigue_map: self.fatigue_map,
                    ..*old(self)
                }),
            decreases hist_n - j,
        {
            let exp_state = self.history[hist_n - 1 - j].state_idx;
            let exp_actions = copy_usize_vec(&self.history[hist_n - 1 - j].actions);
            let dr = fx_mul(reward, discount);

            self.mwso.adapt(dr, &exp_actions, temp0, action_size);

            if conds_empty {
                let action0 = exp_actions[0];
                let ghost ssz2 = self.state_size;
                let plen2: usize = self.penalty_matrix.len();
                proof {
                    assert((action0 as int) * (bpa as int) + bpa <= dim) by (nonlinear_arith)
                        requires
                            action0 < action_size,
                            bpa == dim / action_size,
                            1 <= action_size,
                            0 <= dim,
                    ;
                    assert((exp_state as int) * (dim as int) + (action0 as int) * (bpa as int)
                        + bpa <= (ssz2 as int) * (dim as int)) by (nonlinear_arith)
                        requires
                            exp_state < ssz2,
                            0 < dim,
                            (action0 as int) * (bpa as int) + bpa <= dim,
                    ;
                    assert((exp_state as int) * (dim as int) + (action0 as int) * (bpa as int)
                        + bpa <= plen2 as int);
                }
                let start: usize = exp_state * dim + action0 * bpa;
                if dr > ENGINE_RULE_THRESHOLD {
                    bump_rule(&mut self.learned_rules, exp_state, action0);
                    penalty_scale_range(&mut self.penalty_matrix, start, bpa, FX_HALF);
                } else if dr < 0 {
                    penalty_bump_range(
                        &mut self.penalty_matrix,
                        start,
                        bpa,
                        fx_mul(fx_abs(dr), 131072),
                    );
                }
            }

            fatigue_step(&mut self.fatigue_map, &exp_actions, dr, discount);

            discount = fx_mul(discount, 58982);
            j = j + 1;
        }

        if reward > 6554 {
            let la_n = self.last_actions.len();
            let ghost m0 = self.action_momentum@;
            let ghost mwso_w = self.mwso;
            let ghost rules_w = self.learned_rules;
            let ghost pen_w = self.penalty_matrix;
            let ghost fat_w = self.fatigue_map;
            let mut i: usize = 0;
            while i < la_n
                invariant
                    i <= la_n,
                    la_n == self.last_actions@.len(),
                    self.wf(),
                    self.action_momentum@ == momentum_boost_fold(m0, self.last_actions@, reward, i as int),
                    self.action_momentum@.len() == m0.len(),
                    self.mwso == mwso_w,
                    self.learned_rules == rules_w,
                    self.penalty_matrix == pen_w,
                    self.fatigue_map == fat_w,
                    *self == (Singularity {
                        mwso: self.mwso,
                        learned_rules: self.learned_rules,
                        penalty_matrix: self.penalty_matrix,
                        fatigue_map: self.fatigue_map,
                        action_momentum: self.action_momentum,
                        ..*old(self)
                    }),
                decreases la_n - i,
            {
                let idx = self.last_actions[i];
                let nv = fx_min(fx_add(self.action_momentum[idx], fx_mul(13107, reward)), 131072);
                self.action_momentum.set(idx, nv);
                i = i + 1;
            }
        } else if reward < -32768 {
            scale_in_place(&mut self.action_momentum, 13107);
        }

        scale_in_place(&mut self.action_momentum, 62259);
        scale_in_place(&mut self.penalty_matrix, 65208);
        scale_in_place(&mut self.fatigue_map, 64225);

        let td = fx_abs(reward);
        let pz: i64 = if reward < 0 {
            fx_abs(reward)
        } else {
            0
        };
        self.digest_experience(td, reward, pz);
        self.history = Vec::new();
    }
}

/// The substrate views (oscillation real part, couplings, gravity) after
/// phase-aligning toward the first `n` observed expert actions in order.
pub open spec fn observe_align_fold(
    re: Seq<i64>,
    im: Seq<i64>,
    theta: Seq<i64>,
    g: Seq<i64>,
    actions: Seq<usize>,
    strength: i64,
    action_size: int,
    dim: int,
    n: int,
) -> (Seq<i64>, Seq<i64>, Seq<i64>)
    decreases n,
{
    if n <= 0 {
        (re, theta, g)
    } else {
        let prev = observe_align_fold(re, im, theta, g, actions, strength, action_size, dim, n - 1);
        let bpa = dim / action_size;
        let base = ((actions[n - 1] as int) * bpa) % dim;
        let lr = fx_mul_spec(FX_HALF, strength);
        align_fold(prev.0, im, prev.1, prev.2, strength, lr, base, dim, bpa)
    }
}

/// A knowledge rule list with the first rule for (condition, action)
/// strengthened (capped at ten), or a fresh rule of half the observation
/// strength appended when none exists.
pub open spec fn obs_strengthen_spec(rules: Seq<HamiltonianRule>, cond: i32, action: usize, strength: i64) -> Seq<
    HamiltonianRule,
>
    decreases rules.len(),
{
    if rules.len() == 0 {
        seq![
            HamiltonianRule {
                condition_id: cond,
                target_action: action,
                strength: fx_mul_spec(FX_HALF, strength),
            },
        ]
    } else if rules[0].condition_id == cond && rules[0].target_action == action {
        rules.update(
            0,
            HamiltonianRule {
                condition_id: cond,
                target_action: action,
                strength: fx_min_spec(
                    fx_add_spec(rules[0].strength, fx_mul_spec(6554, strength)),
                    655360,
                ),
            },
        )
    } else {
        seq![rules[0]] + obs_strengthen_spec(rules.drop_first(), cond, action, strength)
    }
}

proof fn lemma_obs_no_match(rules: Seq<HamiltonianRule>, cond: i32, action: usize, strength: i64)
    requires
        forall|k: int|
            0 <= k < rules.len() ==> !((#[trigger] rules[k]).condition_id == cond
                && rules[k].target_action == action),
    ensures
        obs_strengthen_spec(rules, cond, action, strength) == rules.push(
            HamiltonianRule {
                condition_id: cond,
                target_action: action,
                strength: fx_mul_spec(FX_HALF, strength),
            },
        ),
    decreases rules.len(),
{
    let fresh = HamiltonianRule {
        condition_id: cond,
        target_action: action,
        strength: fx_mul_spec(FX_HALF, strength),
    };
    if rules.len() == 0 {
        assert(obs_strengthen_spec(rules, cond, action, strength) =~= rules.push(fresh));
    } else {
        lemma_obs_no_match(rules.drop_first(), cond, action, strength);
        assert(seq![rules[0]] + rules.drop_first().push(fresh) =~= rules.push(fresh));
    }
}

proof fn lemma_obs_match(rules: Seq<HamiltonianRule>, cond: i32, action: usize, strength: i64, k: int)
    requires
        0 <= k < rules.len(),
        rules[k].condition_id == cond && rules[k].target_action == action,
        forall|j: int|
            0 <= j < k ==> !((#[trigger] rules[j]).condition_id == cond && rules[j].target_action
                == action),
    ensures
        obs_strengthen_spec(rules, cond, action, strength) == rules.update(
            k,
            HamiltonianRule {
                condition_id: cond,
                target_action: action,
                strength: fx_min_spec(
                    fx_add_spec(rules[k].strength, fx_mul_spec(6554, strength)),
                    655360,
                ),
            },
        ),
    decreases k,
{
    let bumped = HamiltonianRule {
        condition_id: cond,
        target_action: action,
        strength: fx_min_spec(fx_add_spec(rules[k].strength, fx_mul_spec(6554, strength)), 655360),
    };
    if k == 0 {
    } else {
        lemma_obs_match(rules.drop_first(), cond, action, strength, k - 1);
        assert(seq![rules[0]] + rules.drop_first().update(k - 1, bumped) =~= rules.update(k, bumped));
    }
}

/// Strengthen (or create) the knowledge rule for one observation.
fn obs_strengthen(rules: &mut Vec<HamiltonianRule>, cond: i32, action: usize, strength: i64)
    ensures
        final(rules)@ == obs_strengthen_spec(old(rules)@, cond, action, strength),
{
    let n = rules.len();
    let mut i: usize = 0;
    while i < n
        invariant
            i <= n,
            n == rules@.len(),
            rules@ == old(rules)@,
            forall|j: int|
                0 <= j < i ==> !((#[trigger] rules@[j]).condition_id == cond
                    && rules@[j].target_action == action),
        decreases n - i,
    {
        let rc = rules[i].condition_id;
        let ra = rules[i].target_action;
        if rc == cond && ra == action {
            let ns = fx_min(fx_add(rules[i].strength, fx_mul(6554, strength)), 655360);
            rules[i] = HamiltonianRule { condition_id: cond, target_action: action, strength: ns };
            proof {
                lemma_obs_match(old(rules)@, cond, action, strength, i as int);
            }
            return ;
        }
        i = i + 1;
    }
    rules.push(
        HamiltonianRule { condition_id: cond, target_action: action, strength: fx_mul(FX_HALF, strength) },
    );
    proof {
        lemma_obs_no_match(old(rules)@, cond, action, strength);
    }
}

/// Knowledge rules and penalty matrix after absorbing the first `n`
/// observed actions: each gets its rule strengthened and the penalty of
/// its (state, action) region halved.
pub open spec fn observe_knowledge_fold(
    rules: Seq<HamiltonianRule>,
    penalty: Seq<i64>,
    state_idx: int,
    actions: Seq<usize>,
    strength: i64,
    action_size: int,
    dim: int,
    n: int,
) -> (Seq<HamiltonianRule>, Seq<i64>)
    decreases n,
{
    if n <= 0 {
        (rules, penalty)
    } else {
        let prev = observe_knowledge_fold(
            rules,
            penalty,
            state_idx,
            actions,
            strength,
            action_size,
            dim,
            n - 1,
        );
        let bpa = dim / action_size;
        let start = state_idx * dim + (actions[n - 1] as int) * bpa;
        (
            obs_strengthen_spec(prev.0, state_idx as i32, actions[n - 1], strength),
            penalty_scale_range_spec(prev.1, start, bpa, FX_HALF),
        )
    }
}

impl Singularity {
    /// Inverse reinforcement from an expert observation: phase-align the
    /// substrate toward the observed actions; when the observation is
    /// confident, strengthen or create the matching knowledge rules and
    /// halve the penalties of the observed pairs; record the observation
    /// as the most recent decision so a following `learn` credits it.
    #[verifier::rlimit(100)]
    pub fn observe_expert(&mut self, state_idx: usize, expert_actions: &Vec<usize>, strength: i64)
        requires
            old(self).wf(),
            state_idx < old(self).state_size,
            expert_actions@.len() == old(self).category_sizes@.len(),
            forall|k: int|
                0 <= k < expert_actions@.len() ==> (#[trigger] expert_actions@[k])
                    < old(self).action_size,
        ensures
            final(self).wf(),
            ({
                let e = *old(self);
                let aligned = observe_align_fold(
                    e.mwso.psi_real@,
                    e.mwso.psi_imag@,
                    e.mwso.theta@,
                    e.mwso.gravity_field@,
                    expert_actions@,
                    strength,
                    e.action_size as int,
                    e.mwso.dim as int,
                    expert_actions@.len() as int,
                );
                let kb = if strength > 32768 {
                    observe_knowledge_fold(
                        e.bootstrapper.rules@,
                        e.penalty_matrix@,
                        state_idx as int,
                        expert_actions@,
                        strength,
                        e.action_size as int,
                        e.mwso.dim as int,
                        expert_actions@.len() as int,
                    )
                } else {
                    (e.bootstrapper.rules@, e.penalty_matrix@)
                };
                &&& final(self).mwso.psi_real@ == aligned.0
                &&& final(self).mwso.theta@ == aligned.1
                &&& final(self).mwso.gravity_field@ == aligned.2
                &&& final(self).bootstrapper.rules@ == kb.0
                &&& final(self).penalty_matrix@ == kb.1
            }),
            final(self).input_history@ == push_trim_inputs(old(self).input_history@, state_idx),
            final(self).last_actions@ == expert_actions@,
            final(self).last_state_idx == state_idx,
            final(self).mwso.psi_imag == old(self).mwso.psi_imag,
            final(self).mwso.frequencies == old(self).mwso.frequencies,
            final(self).mwso.entanglements == old(self).mwso.entanglements,
            final(self).mwso.memory_psi_real == old(self).mwso.memory_psi_real,
            final(self).mwso.memory_psi_imag == old(self).mwso.memory_psi_imag,
            final(self).mwso.dim == old(self).mwso.dim,
            final(self).mwso.noise == old(self).mwso.noise,
            final(self).nodes == old(self).nodes,
            final(self).horizon == old(self).horizon,
            final(self).active_conditions == old(self).active_conditions,
            final(self).system_temperature == old(self).system_temperature,
            final(self).last_topology_update_temp == old(self).last_topology_update_temp,
            final(self).fatigue_map == old(self).fatigue_map,
            final(self).category_sizes == old(self).category_sizes,
            final(self).action_size == old(self).action_size,
            final(self).state_size == old(self).state_size,
            final(self).action_momentum == old(self).action_momentum,
            final(self).history == old(self).history,
            final(self).learned_rules == old(self).learned_rules,
            final(self).exploration_beta == old(self).exploration_beta,
    {
        let n = expert_actions.len();
        let action_size = self.action_size;
        let dim = self.mwso.dim;
        let bpa = dim / action_size;
        proof {
            assert(dim / action_size <= dim) by (nonlinear_arith)
                requires
                    1 <= action_size,
                    0 <= dim,
            ;
        }

        let mut i: usize = 0;
        while i < n
            invariant
                i <= n,
                n == expert_actions@.len(),
                self.wf(),
                self.mwso.dim == dim,
                self.action_size == action_size,
                forall|k: int|
                    0 <= k < n ==> (#[trigger] expert_actions@[k]) < action_size,
                ({
                    let aligned = observe_align_fold(
                        old(self).mwso.psi_real@,
                        old(self).mwso.psi_imag@,
                        old(self).mwso.theta@,
                        old(self).mwso.gravity_field@,
                        expert_actions@,
                        strength,
                        action_size as int,
                        dim as int,
                        i as int,
                    );
                    &&& self.mwso.psi_real@ == aligned.0
                    &&& self.mwso.theta@ == aligned.1
                    &&& self.mwso.gravity_field@ == aligned.2
                }),
                self.mwso.psi_imag == old(self).mwso.psi_imag,
                self.mwso.frequencies == old(self).mwso.frequencies,
                self.mwso.entanglements == old(self).mwso.entanglements,
                self.mwso.memory_psi_real == old(self).mwso.memory_psi_real,
                self.mwso.memory_psi_imag == old(self).mwso.memory_psi_imag,
                self.mwso.noise == old(self).mwso.noise,
                *self == (Singularity { mwso: self.mwso, ..*old(self) }),
            decreases n - i,
        {
            let a = expert_actions[i];
            self.mwso.align_to_action(a, strength, action_size);
            i = i + 1;
        }

        if strength > 32768 {
            let ghost rules0 = self.bootstrapper.rules@;
            let ghost pen0 = self.penalty_matrix@;
            let ghost mwso_a = self.mwso;
            let mut i2: usize = 0;
            while i2 < n
                invariant
                    i2 <= n,
                    n == expert_actions@.len(),
                    self.wf(),
                    self.mwso == mwso_a,
                    self.mwso.dim == dim,
                    self.action_size == action_size,
                    bpa == dim / action_size,
                    bpa <= dim,
                    state_idx < self.state_size,
                    forall|k: int|
                        0 <= k < n ==> (#[trigger] expert_actions@[k]) < action_size,
                    ({
                        let kb = observe_knowledge_fold(
                            rules0,
                            pen0,
                            state_idx as int,
                            expert_actions@,
                            strength,
                            action_size as int,
                            dim as int,
                            i2 as int,
                        );
                        self.bootstrapper.rules@ == kb.0 && self.penalty_matrix@ == kb.1
                    }),
                    *self == (Singularity {
                        mwso: self.mwso,
                        bootstrapper: self.bootstrapper,
                        penalty_matrix: self.penalty_matrix,
                        ..*old(self)
                    }),
                decreases n - i2,
            {
                let a = expert_actions[i2];
                obs_strengthen(&mut self.bootstrapper.rules, state_idx as i32, a, strength);

                let ghost ssz3 = self.state_size;
                let plen3: usize = self.penalty_matrix.len();
                proof {
                    assert((a as int) * (bpa as int) + bpa <= dim) by (nonlinear_arith)
                        requires
                            a < action_size,
                            bpa == dim / action_size,
                            1 <= action_size,
                            0 <= dim,
                    ;
                    assert((state_idx as int) * (dim as int) + (a as int) * (bpa as int) + bpa
                        <= (ssz3 as int) * (dim as int)) by (nonlinear_arith)
                        requires
                            state_idx < ssz3,
                            0 < dim,
                            (a as int) * (bpa as int) + bpa <= dim,
                    ;
                    assert((state_idx as int) * (dim as int) + (a as int) * (bpa as int) + bpa
                        <= plen3 as int);
                }
                let start: usize = state_idx * dim + a * bpa;
                penalty_scale_range(&mut self.penalty_matrix, start, bpa, FX_HALF);
                i2 = i2 + 1;
            }
        }

        self.input_history.push(state_idx);
        if self.input_history.len() > ENGINE_MAX_INPUT_HISTORY {
            self.input_history.remove(0);
        }

        self.last_actions = copy_usize_vec(expert_actions);
        self.last_state_idx = state_idx;
    }
}

proof fn lemma_fatigue_step_untouched(f: Seq<i64>, actions: Seq<usize>, dr: i64, discount: i64, n: int, a: int)
    requires
        0 <= a < f.len(),
        0 <= n <= actions.len(),
        forall|k: int| 0 <= k < actions.len() ==> (#[trigger] actions[k]) < f.len(),
        forall|k: int| 0 <= k < actions.len() ==> (#[trigger] actions[k]) != a,
    ensures
        fatigue_step_fold(f, actions, dr, discount, n).len() == f.len(),
        fatigue_step_fold(f, actions, dr, discount, n)[a] == f[a],
    decreases n,
{
    if n > 0 {
        lemma_fatigue_step_untouched(f, actions, dr, discount, n - 1, a);
    }
}

proof fn lemma_learn_walk_fatigue_untouched(
    img: LearnImage,
    hist: Seq<Experience>,
    reward: i64,
    temp: i64,
    action_size: int,
    dim: int,
    conds_empty: bool,
    n: int,
    a: int,
)
    requires
        0 <= a < img.fatigue.len(),
        0 <= n <= hist.len(),
        forall|j: int, k: int|
            0 <= j < hist.len() && 0 <= k < hist[j].actions@.len() ==> (#[trigger] hist[j].actions@[k])
                < img.fatigue.len(),
        forall|j: int, k: int|
            0 <= j < hist.len() && 0 <= k < hist[j].actions@.len() ==> (#[trigger] hist[j].actions@[k])
                != a,
    ensures
        learn_walk_spec(img, hist, reward, temp, action_size, dim, conds_empty, n).fatigue.len()
            == img.fatigue.len(),
        learn_walk_spec(img, hist, reward, temp, action_size, dim, conds_empty, n).fatigue[a]
            == img.fatigue[a],
    decreases n,
{
    if n > 0 {
        lemma_learn_walk_fatigue_untouched(
            img,
            hist,
            reward,
            temp,
            action_size,
            dim,
            conds_empty,
            n - 1,
            a,
        );
        let prev = learn_walk_spec(img, hist, reward, temp, action_size, dim, conds_empty, n - 1);
        lemma_fatigue_step_untouched(
            prev.fatigue,
            hist[hist.len() - n].actions@,
            fx_mul_spec(reward, discount_at(n - 1)),
            discount_at(n - 1),
            hist[hist.len() - n].actions@.len() as int,
            a,
        );
    }
}

/// LAW — fatigue decay: over one `learn` call, the fatigue of an action
/// that appears in no remembered decision is exactly its old value scaled
/// by the geometric decay factor 0.98, so it shrinks monotonically toward
/// zero.  Together with `learn`'s contract (which fixes the final fatigue
/// map to `scaled_spec(walked.fatigue, 64225)`), this pins the fate of
/// every never-selected action.
pub proof fn lemma_fatigue_decay_unselected(e: Singularity, reward: i64, a: int)
    requires
        e.wf(),
        0 <= a < e.fatigue_map@.len(),
        forall|j: int, k: int|
            0 <= j < e.history@.len() && 0 <= k < e.history@[j].actions@.len() ==> (
            #[trigger] e.history@[j].actions@[k]) != a,
    ensures
        ({
            let img0 = LearnImage {
                wave: picture_of(e.mwso),
                rules: e.learned_rules@,
                penalty: e.penalty_matrix@,
                fatigue: e.fatigue_map@,
            };
            let n = learn_steps_rec(e.history@.len() as int, 0);
            let walked = learn_walk_spec(
                img0,
                e.history@,
                reward,
                e.system_temperature,
                e.action_size as int,
                e.mwso.dim as int,
                e.active_conditions@.len() == 0,
                n,
            );
            let fat2 = scaled_spec(walked.fatigue, 64225);
            &&& fat2[a] == fx_mul_spec(e.fatigue_map@[a], 64225)
            &&& (e.fatigue_map@[a] >= 0 ==> 0 <= fat2[a] <= e.fatigue_map@[a])
        }),
{
    let img0 = LearnImage {
        wave: picture_of(e.mwso),
        rules: e.learned_rules@,
        penalty: e.penalty_matrix@,
        fatigue: e.fatigue_map@,
    };
    let hist = e.history@;
    let n = learn_steps_rec(hist.len() as int, 0);
    lemma_learn_steps_bounds(hist.len() as int, 0);
    lemma_learn_walk_fatigue_untouched(
        img0,
        hist,
        reward,
        e.system_temperature,
        e.action_size as int,
        e.mwso.dim as int,
        e.active_conditions@.len() == 0,
        n,
        a,
    );
    let walked = learn_walk_spec(
        img0,
        hist,
        reward,
        e.system_temperature,
        e.action_size as int,
        e.mwso.dim as int,
        e.active_conditions@.len() == 0,
        n,
    );
    let f = e.fatigue_map@[a];
    if f >= 0 {
        assert(0 <= (f as int) * 64225 / 65536 <= f) by (nonlinear_arith)
            requires
                f >= 0,
        ;
    }
}

/// The walk visits between zero and all remembered decisions.
pub proof fn lemma_learn_steps_bounds(len: int, j: int)
    requires
        0 <= j <= len,
    ensures
        j <= learn_steps_rec(len, j) <= len,
    decreases len - j,
{
    if j < len && !(discount_at(j) < ENGINE_DISCOUNT_FLOOR) {
        lemma_learn_steps_bounds(len, j + 1);
    }
}

/// Everything of two engines is equal but the noise generator state.
pub open spec fn final_eq_except_noise(a: Singularity, b: Singularity) -> bool {
    a == (Singularity {
        mwso: (MWSO { noise: a.mwso.noise, ..b.mwso }),
        ..b
    })
}

/// An owned copy of a condition list.
fn copy_i32_vec(v: &Vec<i32>) -> (r: Vec<i32>)
    ensures
        r@ == v@,
{
    let n = v.len();
    let mut out: Vec<i32> = Vec::new();
    let mut i: usize = 0;
    while i < n
        invariant
            i <= n,
            n == v@.len(),
            out@.len() == i,
            forall|k: int| 0 <= k < i ==> out@[k] == v@[k],
        decreases n - i,
    {
        out.push(v[i]);
        i = i + 1;
    }
    proof {
        assert(out@ =~= v@);
    }
    out
}

} // verus!
