//! One affect unit: a leaky integrator with a weighted adjacency list to the
//! other nodes of the engine.

use vstd::prelude::*;
use crate::fx::{fx_add, fx_add_spec, fx_mul, fx_mul_spec, fx_sub, fx_sub_spec, fx_max, fx_max_spec, fx_clamp, fx_clamp_spec, FX_ONE};

verus! {

/// A weighted connection to another node, referenced by index.
pub struct Synapse {
    pub target_id: usize,
    pub weight: i64,
}

/// A neuromodulator node.  Its activation `state` always stays in [0, 1].
pub struct Node {
    pub state: i64,
    pub base_decay: i64,
    pub synapses: Vec<Synapse>,
}

/// Self-recurrence weight (0.1).
pub const NODE_SELF_FEEDBACK: i64 = 6554;

/// Thermal plasticity gain (0.4).
pub const NODE_THERMAL_GAIN: i64 = 26214;

/// Lower clamp of the plasticity coefficient (0.01).
pub const NODE_ALPHA_FLOOR: i64 = 655;

/// External input plus the weighted activations of the first `n` synapse
/// targets, accumulated left to right; a synapse whose target is out of
/// range contributes nothing.
pub open spec fn synaptic_acc_spec(synapses: Seq<Synapse>, states: Seq<i64>, input: i64, n: int) -> i64
    decreases n,
{
    if n <= 0 {
        input
    } else {
        let prev = synaptic_acc_spec(synapses, states, input, n - 1);
        let syn = synapses[n - 1];
        if syn.target_id < states.len() {
            fx_add_spec(prev, fx_mul_spec(states[syn.target_id as int], syn.weight))
        } else {
            prev
        }
    }
}

/// The plasticity coefficient: base decay, raised by urgency and by system
/// temperature, clamped into [0.01, 1].
pub open spec fn node_alpha_spec(base_decay: i64, urgency: i64, system_temp: i64) -> i64 {
    let thermal = fx_max_spec(fx_mul_spec(system_temp, NODE_THERMAL_GAIN), 0);
    fx_clamp_spec(
        fx_add_spec(fx_add_spec(base_decay, fx_mul_spec(urgency, fx_sub_spec(FX_ONE, base_decay))), thermal),
        NODE_ALPHA_FLOOR,
        FX_ONE,
    )
}

/// The new activation after one update, over the plain components of a
/// node: the old state moved toward the total synaptic input by the
/// plasticity coefficient, clamped into [0, 1].
pub open spec fn node_update_state_spec(
    state: i64,
    base_decay: i64,
    synapses: Seq<Synapse>,
    input: i64,
    urgency: i64,
    system_temp: i64,
    states: Seq<i64>,
) -> i64 {
    let synaptic = fx_add_spec(
        synaptic_acc_spec(synapses, states, input, synapses.len() as int),
        fx_mul_spec(state, NODE_SELF_FEEDBACK),
    );
    let alpha = node_alpha_spec(base_decay, urgency, system_temp);
    fx_clamp_spec(fx_add_spec(state, fx_mul_spec(alpha, fx_sub_spec(synaptic, state))), 0, FX_ONE)
}

/// The new activation after one update.
pub open spec fn node_update_spec(node: Node, input: i64, urgency: i64, system_temp: i64, states: Seq<i64>) -> i64 {
    node_update_state_spec(node.state, node.base_decay, node.synapses@, input, urgency, system_temp, states)
}

/// The activation after inhibition: reduced by its own value scaled with the
/// dampening factor, floored at zero.
pub open spec fn node_inhibit_spec(state: i64, dampening_factor: i64) -> i64 {
    fx_max_spec(fx_sub_spec(state, fx_mul_spec(state, dampening_factor)), 0)
}

impl Node {
    /// A fresh node: zero activation, the given leak rate, no synapses.
    pub fn new(initial_decay: i64) -> (r: Node)
        ensures
            r.state == 0,
            r.base_decay == initial_decay,
            r.synapses@.len() == 0,
    {
        Node { state: 0, base_decay: initial_decay, synapses: Vec::new() }
    }

    /// Leaky-integrator update against a snapshot of all node activations.
    pub fn update(&mut self, input: i64, urgency: i64, system_temp: i64, node_states: &Vec<i64>)
        ensures
            final(self).state == node_update_spec(*old(self), input, urgency, system_temp, node_states@),
            0 <= final(self).state <= FX_ONE,
            final(self).base_decay == old(self).base_decay,
            final(self).synapses == old(self).synapses,
    {
        let mut synaptic_input: i64 = input;
        let n = self.synapses.len();
        let mut i: usize = 0;
        while i < n
            invariant
                i <= n,
                n == self.synapses@.len(),
                synaptic_input == synaptic_acc_spec(self.synapses@, node_states@, input, i as int),
                self == old(self),
            decreases n - i,
        {
            let syn_target = self.synapses[i].target_id;
            let syn_weight = self.synapses[i].weight;
            if syn_target < node_states.len() {
                let contribution = fx_mul(node_states[syn_target], syn_weight);
                synaptic_input = fx_add(synaptic_input, contribution);
            }
            i = i + 1;
        }
        synaptic_input = fx_add(synaptic_input, fx_mul(self.state, NODE_SELF_FEEDBACK));

        let thermal = fx_max(fx_mul(system_temp, NODE_THERMAL_GAIN), 0);
        let alpha = fx_clamp(
            fx_add(fx_add(self.base_decay, fx_mul(urgency, fx_sub(FX_ONE, self.base_decay))), thermal),
            NODE_ALPHA_FLOOR,
            FX_ONE,
        );

        let moved = fx_add(self.state, fx_mul(alpha, fx_sub(synaptic_input, self.state)));
        self.state = fx_clamp(moved, 0, FX_ONE);
    }

    /// Inhibitory feedback from the homeostatic regulator.
    pub fn apply_inhibition(&mut self, dampening_factor: i64)
        ensures
            final(self).state == node_inhibit_spec(old(self).state, dampening_factor),
            final(self).base_decay == old(self).base_decay,
            final(self).synapses == old(self).synapses,
    {
        self.state = fx_max(fx_sub(self.state, fx_mul(self.state, dampening_factor)), 0);
    }
}

} // verus!
