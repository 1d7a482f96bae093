//! Homeostatic regulator: tracks aggregate node activity through a decaying
//! buffer and applies inhibitory feedback when the system runs hot.

use vstd::prelude::*;
use crate::fx::{fx_add, fx_add_spec, fx_mul, fx_mul_spec, fx_min, fx_min_spec, fx_div, fx_div_spec, FX_ONE};
use crate::node::Node;
use crate::node::node_inhibit_spec;

verus! {

/// Fraction of total activity accumulated per call (0.1).
pub const HORIZON_UPTAKE: i64 = 6554;

/// Per-call decay of the buffer (0.92).
pub const HORIZON_DECAY: i64 = 60293;

/// Default homeostatic threshold (1.8).
pub const HORIZON_THRESHOLD: i64 = 117965;

/// Buffer level that forces intervention regardless of activity (2.0).
pub const HORIZON_BUFFER_LIMIT: i64 = 131072;

/// Activation above which a node is inhibited during regulation (0.5).
pub const HORIZON_ACTIVE_LEVEL: i64 = 32768;

/// Inhibition factor applied during regulation (0.15).
pub const HORIZON_INHIBITION: i64 = 9830;

/// Divisor used by the intervention level (3.0).
pub const HORIZON_LEVEL_DIV: i64 = 196608;

/// Sum of the activations of the first `n` listed nodes, accumulated left to
/// right; an index that is out of range contributes nothing.
pub open spec fn total_activity_spec(nodes: Seq<Node>, indices: Seq<usize>, n: int) -> i64
    decreases n,
{
    if n <= 0 {
        0
    } else {
        let prev = total_activity_spec(nodes, indices, n - 1);
        let idx = indices[n - 1];
        if idx < nodes.len() {
            fx_add_spec(prev, nodes[idx as int].state)
        } else {
            prev
        }
    }
}

/// The node list after inhibiting, in listed order, every listed node whose
/// activation exceeds the active level.
pub open spec fn inhibit_fold_spec(nodes: Seq<Node>, indices: Seq<usize>, n: int) -> Seq<Node>
    decreases n,
{
    if n <= 0 {
        nodes
    } else {
        let prev = inhibit_fold_spec(nodes, indices, n - 1);
        let idx = indices[n - 1];
        if idx < prev.len() && prev[idx as int].state > HORIZON_ACTIVE_LEVEL {
            prev.update(
                idx as int,
                Node {
                    state: node_inhibit_spec(prev[idx as int].state, HORIZON_INHIBITION),
                    ..prev[idx as int]
                },
            )
        } else {
            prev
        }
    }
}

/// Whether regulation fires: the system is hot and either total activity
/// crosses the threshold or the buffer has built up past its limit.
pub open spec fn intervention_due_spec(h: Horizon, system_temp: i64, total: i64, new_buffer: i64) -> bool {
    system_temp > FX_ONE && (total > h.homeostatic_threshold || new_buffer > HORIZON_BUFFER_LIMIT)
}

/// The regulator.  The buffer accumulates a fraction of every activity
/// reading and decays geometrically each call.
pub struct Horizon {
    pub glutamate_buffer: i64,
    pub homeostatic_threshold: i64,
}

impl Horizon {
    pub fn new() -> (r: Horizon)
        ensures
            r.glutamate_buffer == 0,
            r.homeostatic_threshold == HORIZON_THRESHOLD,
    {
        Horizon { glutamate_buffer: 0, homeostatic_threshold: HORIZON_THRESHOLD }
    }

    /// Accumulate node activity into the buffer, decay it, and inhibit the
    /// listed nodes when the system is hot and over budget.
    pub fn regulate(&mut self, system_temp: i64, node_indices: &Vec<usize>, nodes: &mut Vec<Node>)
        ensures
            ({
                let total = total_activity_spec(old(nodes)@, node_indices@, node_indices@.len() as int);
                let new_buffer = fx_mul_spec(
                    fx_add_spec(old(self).glutamate_buffer, fx_mul_spec(total, HORIZON_UPTAKE)),
                    HORIZON_DECAY,
                );
                &&& final(self).glutamate_buffer == new_buffer
                &&& final(self).homeostatic_threshold == old(self).homeostatic_threshold
                &&& final(nodes)@ == if intervention_due_spec(*old(self), system_temp, total, new_buffer) {
                    inhibit_fold_spec(old(nodes)@, node_indices@, node_indices@.len() as int)
                } else {
                    old(nodes)@
                }
            }),
    {
        let n = node_indices.len();
        let mut total: i64 = 0;
        let mut i: usize = 0;
        while i < n
            invariant
                i <= n,
                n == node_indices@.len(),
                total == total_activity_spec(nodes@, node_indices@, i as int),
                nodes@ == old(nodes)@,
                self == old(self),
            decreases n - i,
        {
            let idx = node_indices[i];
            if idx < nodes.len() {
                total = fx_add(total, nodes[idx].state);
            }
            i = i + 1;
        }

        let new_buffer = fx_mul(fx_add(self.glutamate_buffer, fx_mul(total, HORIZON_UPTAKE)), HORIZON_DECAY);
        self.glutamate_buffer = new_buffer;

        if system_temp > FX_ONE && (total > self.homeostatic_threshold || new_buffer > HORIZON_BUFFER_LIMIT) {
            let mut j: usize = 0;
            while j < n
                invariant
                    j <= n,
                    n == node_indices@.len(),
                    nodes@ == inhibit_fold_spec(old(nodes)@, node_indices@, j as int),
                decreases n - j,
            {
                let idx = node_indices[j];
                if idx < nodes.len() {
                    if nodes[idx].state > HORIZON_ACTIVE_LEVEL {
                        nodes[idx].apply_inhibition(HORIZON_INHIBITION);
                    }
                }
                j = j + 1;
            }
        }
    }

    /// How strongly the regulator is currently intervening, in [0, 1].
    pub fn get_intervention_level(&self) -> (r: i64)
        ensures
            r == fx_min_spec(fx_div_spec(self.glutamate_buffer, HORIZON_LEVEL_DIV), FX_ONE),
    {
        fx_min(fx_div(self.glutamate_buffer, HORIZON_LEVEL_DIV), FX_ONE)
    }
}

} // verus!
