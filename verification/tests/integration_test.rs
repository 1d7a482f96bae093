use dark_singularity::singularity::Singularity;

fn fx(x: f64) -> i64 {
    (x * 65536.0).round() as i64
}

#[test]
fn test_save_and_load() {
    let state_size = 64;
    let cat_sizes = vec![8];
    let mut sing = Singularity::new(state_size, cat_sizes.clone());

    // Modify state
    sing.system_temperature = fx(0.8);
    sing.adrenaline = fx(0.5);
    sing.mwso.theta[0] = fx(1.23);
    sing.mwso.theta[511] = fx(0.99);
    sing.fatigue_map[0] = fx(0.9);

    // Save
    let bytes = sing.save_to_bytes();

    // Create new instance
    let mut loaded_sing = Singularity::new(state_size, cat_sizes);

    // Init state should be different
    assert_ne!(loaded_sing.system_temperature, fx(0.8));

    // Load
    loaded_sing
        .load_from_bytes(&bytes)
        .expect("Failed to load");

    // Verify: the fixed-point round trip is exact, well within 1e-6.
    assert_eq!(loaded_sing.system_temperature, fx(0.8));
    assert_eq!(loaded_sing.adrenaline, fx(0.5));
    assert_eq!(loaded_sing.mwso.theta[0], fx(1.23));
    assert_eq!(loaded_sing.mwso.theta[511], fx(0.99));
    assert_eq!(loaded_sing.fatigue_map[0], fx(0.9));
}

#[test]
fn test_state_size_mismatch_validation() {
    // 1. Save with 64 states
    let bytes = {
        let sing = Singularity::new(64, vec![4]);
        sing.save_to_bytes()
    };

    // 2. Loading into an instance with 128 states must fail and must not
    //    mutate the engine.
    {
        let mut sing = Singularity::new(128, vec![4]);
        let temp_before = sing.system_temperature;
        let result = sing.load_from_bytes(&bytes);
        assert!(result.is_err(), "Should fail due to state_size mismatch");
        assert_eq!(sing.system_temperature, temp_before);
    }
}

#[test]
fn test_optimization_logic() {
    let mut sing = Singularity::new(64, vec![8]);
    sing.system_temperature = fx(0.5);
    sing.last_topology_update_temp = fx(0.5); // Sync

    // Small change - should NOT trigger topology reshape
    sing.digest_experience(fx(0.04), 0, 0);

    assert_eq!(
        sing.last_topology_update_temp,
        fx(0.50),
        "Should skip reshape for small diff"
    );

    // Large change
    sing.digest_experience(fx(1.0), 0, 0);

    assert_eq!(
        sing.last_topology_update_temp, sing.system_temperature,
        "Should reshape for large diff"
    );
}

#[test]
fn test_knowledge_bootstrap() {
    let state_size = 10;
    let cat_sizes = vec![4];
    let mut sing = Singularity::new(state_size, cat_sizes);

    sing.bootstrapper.add_hamiltonian_rule(1, 1, fx(0.95)); // action 1 -> bias 0.95

    // Verify it affects action selection
    let actions = sing.select_actions(1);
    assert_eq!(actions.len(), 1);
}
