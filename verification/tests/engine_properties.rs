use dark_singularity::horizon::Horizon;
use dark_singularity::knowledge::Bootstrapper;
use dark_singularity::node::Node;
use dark_singularity::singularity::Singularity;
use dark_singularity::snapshot::SnapshotError;

fn fp(x: f64) -> i64 {
    (x * 65536.0).round() as i64
}

fn approx(x: i64) -> f64 {
    x as f64 / 65536.0
}

/// After a core step the wave energy meets the temperature-dependent
/// target norm, across the valid temperatures.  The scale factor and every
/// component are Q16.16 values, so the match is within the quantization of
/// that representation (5e-4 relative), and is bit-identical across runs.
#[test]
fn normalization_meets_target_norm() {
    for &t in &[0.0, 0.3, 0.5, 1.0, 1.7, 2.0] {
        let mut ai = Singularity::new(4, vec![2]);
        ai.system_temperature = fp(t);
        // One plain step of the substrate at this temperature.
        ai.update_all_nodes(&Vec::new(), 0);

        let target = 1.0 + (0.5 * t).min(1.5);
        let mut energy = 0.0f64;
        for i in 0..ai.mwso.dim {
            let re = approx(ai.mwso.psi_real[i]);
            let im = approx(ai.mwso.psi_imag[i]);
            energy += re * re + im * im;
        }
        let rel = (energy - target * target).abs() / (target * target);
        assert!(
            rel < 5e-4,
            "energy {} misses target {} at temperature {} (rel {})",
            energy,
            target * target,
            t,
            rel
        );
    }
}

/// Save and load over an exercised engine: every persisted field returns
/// exactly.
#[test]
fn snapshot_roundtrip_preserves_state() {
    let mut ai = Singularity::new(16, vec![4, 2]);
    for i in 0..12 {
        ai.select_actions(i % 16);
        ai.learn(if i % 3 == 0 { fp(2.0) } else { fp(-0.5) });
    }
    ai.observe_expert(3, &vec![1, 5], fp(1.0));
    ai.adrenaline = fp(0.25);
    ai.morale = fp(0.75);

    let bytes = ai.save_to_bytes();
    let mut fresh = Singularity::new(16, vec![4, 2]);
    fresh.load_from_bytes(&bytes).expect("load should succeed");

    assert_eq!(fresh.system_temperature, ai.system_temperature);
    assert_eq!(fresh.adrenaline, ai.adrenaline);
    assert_eq!(fresh.frustration, ai.frustration);
    assert_eq!(fresh.velocity_trust, ai.velocity_trust);
    assert_eq!(fresh.morale, ai.morale);
    assert_eq!(fresh.patience, ai.patience);
    assert_eq!(fresh.exploration_beta, ai.exploration_beta);
    assert_eq!(fresh.horizon.glutamate_buffer, ai.horizon.glutamate_buffer);
    assert_eq!(fresh.fatigue_map, ai.fatigue_map);
    assert_eq!(fresh.action_momentum, ai.action_momentum);
    assert_eq!(fresh.mwso.gravity_field, ai.mwso.gravity_field);
    assert_eq!(fresh.input_history, ai.input_history);
    assert_eq!(fresh.learned_rules, ai.learned_rules);
    assert_eq!(fresh.mwso.psi_real, ai.mwso.psi_real);
    assert_eq!(fresh.mwso.psi_imag, ai.mwso.psi_imag);
    assert_eq!(fresh.mwso.theta, ai.mwso.theta);
}

/// A rule injected for (state 1, action 1) makes the fresh engine pick
/// action 1 when perceiving state 1 with that condition active: the
/// deterministic knowledge bias dominates the near-zero default state.
#[test]
fn knowledge_override_dominates_fresh_engine() {
    let mut ai = Singularity::new(10, vec![4]);
    ai.bootstrapper.add_hamiltonian_rule(1, 1, fp(0.95));
    ai.set_active_conditions(&vec![1]);
    let actions = ai.select_actions(1);
    assert_eq!(actions, vec![1]);
}

/// A strongly negative rule excludes its action outright.
#[test]
fn knowledge_exclusion_avoids_action() {
    let mut ai = Singularity::new(10, vec![4]);
    ai.bootstrapper.add_hamiltonian_rule(1, 2, fp(-0.95));
    ai.set_active_conditions(&vec![1]);
    let actions = ai.select_actions(1);
    assert_ne!(actions, vec![2]);
}

/// Fatigue of an action never selected decays exactly geometrically
/// (factor 0.98 in Q16.16: 64225/65536 per learn call), monotonically.
#[test]
fn fatigue_decays_geometrically_when_unselected() {
    let mut ai = Singularity::new(10, vec![4]);
    ai.fatigue_map[2] = fp(0.8);
    let mut expected: i64 = fp(0.8);
    for _ in 0..10 {
        let before = ai.fatigue_map[2];
        ai.learn(fp(0.5));
        expected = expected * 64225 / 65536;
        assert_eq!(ai.fatigue_map[2], expected);
        assert!(ai.fatigue_map[2] <= before);
        assert!(ai.fatigue_map[2] >= 0);
    }
    assert!(ai.fatigue_map[2] < fp(0.8));
}

/// Exact formula checks of the global decays applied by one learn call.
#[test]
fn learn_applies_exact_global_decays() {
    let mut ai = Singularity::new(10, vec![4]);
    ai.action_momentum[1] = 65536;
    ai.penalty_matrix[5] = 65536;
    ai.fatigue_map[0] = 65536;
    ai.learn(0);
    // Momentum: neither boosted nor reset at zero reward, decayed by 0.95.
    assert_eq!(ai.action_momentum[1], 62259);
    // Penalty decays by 0.995, fatigue by 0.98.
    assert_eq!(ai.penalty_matrix[5], 65208);
    assert_eq!(ai.fatigue_map[0], 64225);
}

/// Exact leaky-integrator arithmetic of one node update.
#[test]
fn node_update_exact_values() {
    let mut n = Node::new(fp(0.5));
    n.update(fp(1.0), 0, 0, &Vec::new());
    // alpha = 0.5; move from 0 halfway toward input 1.0.
    assert_eq!(n.state, 32768);
    n.update(fp(1.0), 0, 0, &Vec::new());
    // synaptic = 1.0 + 0.1 * 0.5 = 1.05; state += 0.5 * (1.05 - 0.5).
    assert_eq!(n.state, 50790);
}

/// Exact buffer bookkeeping of the homeostatic regulator.
#[test]
fn horizon_buffer_exact_values() {
    let mut h = Horizon::new();
    let mut nodes = vec![Node::new(fp(0.5))];
    nodes[0].state = fp(1.0);
    h.regulate(fp(0.5), &vec![0], &mut nodes);
    // buffer = (0 + 1.0 * 0.1) * 0.92 in Q16.16 floor arithmetic.
    let uptake = (65536i64 * 6554) / 65536;
    let expected = (uptake * 60293) / 65536;
    assert_eq!(h.glutamate_buffer, expected);
    // Cool system: no inhibition happened.
    assert_eq!(nodes[0].state, fp(1.0));
    // Intervention level is buffer / 3 (far below the cap of 1).
    assert_eq!(h.get_intervention_level(), (expected * 65536) / 196608);
}

/// "No rule fired" stays distinguishable from "strength zero".
#[test]
fn resonance_field_none_vs_zero() {
    let mut b = Bootstrapper::new();
    b.add_hamiltonian_rule(7, 2, fp(0.5));
    b.add_hamiltonian_rule(7, 3, 0);
    let field = b.calculate_resonance_field(&vec![7], 4);
    assert_eq!(field, vec![None, None, Some(fp(0.5)), Some(0)]);
    let idle = b.calculate_resonance_field(&Vec::new(), 4);
    assert_eq!(idle, vec![None, None, None, None]);
}

/// Every malformed snapshot is rejected and leaves the engine untouched.
#[test]
fn malformed_snapshots_are_rejected() {
    let mut ai = Singularity::new(8, vec![2]);
    let temp = ai.system_temperature;

    // Empty buffer.
    assert_eq!(ai.load_from_bytes(&Vec::new()), Err(SnapshotError::MalformedSnapshot));
    // Bad magic.
    let mut bad = ai.save_to_bytes();
    bad[0] = 0;
    assert_eq!(ai.load_from_bytes(&bad), Err(SnapshotError::MalformedSnapshot));
    // Wrong version.
    let mut wrong_version = ai.save_to_bytes();
    wrong_version[4] = wrong_version[4].wrapping_add(1);
    assert_eq!(
        ai.load_from_bytes(&wrong_version),
        Err(SnapshotError::MalformedSnapshot)
    );
    // Truncated payload.
    let mut truncated = ai.save_to_bytes();
    truncated.truncate(truncated.len() / 2);
    assert_eq!(
        ai.load_from_bytes(&truncated),
        Err(SnapshotError::MalformedSnapshot)
    );
    // Mismatched state size.
    let other = Singularity::new(9, vec![2]).save_to_bytes();
    assert_eq!(
        ai.load_from_bytes(&other),
        Err(SnapshotError::IncompatibleDimensions)
    );

    assert_eq!(ai.system_temperature, temp);
}

/// The smallest valid configuration works end to end.
#[test]
fn minimal_engine_runs() {
    let mut ai = Singularity::new(1, vec![1]);
    let actions = ai.select_actions(0);
    assert_eq!(actions, vec![0]);
    ai.learn(fp(1.0));
    ai.observe_expert(0, &vec![0], fp(1.0));
    let bytes = ai.save_to_bytes();
    let mut fresh = Singularity::new(1, vec![1]);
    assert!(fresh.load_from_bytes(&bytes).is_ok());
}

/// Wormholes register only when both endpoints are inside the substrate.
#[test]
fn wormhole_endpoints_are_validated() {
    let mut ai = Singularity::new(4, vec![2]);
    ai.add_wormhole(0, 1, fp(0.5));
    assert_eq!(ai.mwso.entanglements.len(), 1);
    ai.add_wormhole(0, 1000000, fp(0.5));
    assert_eq!(ai.mwso.entanglements.len(), 1);
}

/// Temperature follows the documented branch structure when digesting.
#[test]
fn digest_temperature_branches() {
    // Clear win: hard reset to 0.05.
    let mut a = Singularity::new(4, vec![2]);
    a.digest_experience(fp(2.0), fp(2.0), 0);
    assert_eq!(a.system_temperature, fp(0.05));

    // Mild success: exponential cooling, floored at 0.05.
    let mut b = Singularity::new(4, vec![2]);
    b.digest_experience(fp(0.5), fp(0.5), 0);
    let cooled = (fp(0.5) * 52429) / 65536 - (fp(0.5) * 6554) / 65536;
    assert_eq!(b.system_temperature, cooled.max(fp(0.05)));

    // Failure: heating by the error signal, capped at 2.0.
    let mut c = Singularity::new(4, vec![2]);
    c.digest_experience(fp(1.0), fp(-1.0), fp(1.0));
    let heated = fp(0.5) + (fp(1.0) * 13107) / 65536;
    assert_eq!(c.system_temperature, heated.min(fp(2.0)));
}
