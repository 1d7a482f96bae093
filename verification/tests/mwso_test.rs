use dark_singularity::singularity::Singularity;

fn q16(x: f64) -> i64 {
    (x * 65536.0).round() as i64
}

#[test]
fn test_mwso_influence() {
    let mut sing = Singularity::new(10, vec![5]);

    let actions1 = sing.select_actions(0);
    assert_eq!(actions1.len(), 1);

    // Reward the selected actions repeatedly so the substrate adapts.
    for _ in 0..10 {
        sing.select_actions(0);
        sing.learn(q16(1.0));
    }

    let score_after = sing.mwso.get_action_scores(0, 5, 0, &Vec::new());
    println!("MWSO Scores after adaptation: {:?}", score_after);
}

#[test]
fn test_mwso_wave_evolution() {
    let mut sing = Singularity::new(10, vec![5]);

    let initial_psi = sing.mwso.psi_real.clone();

    // Drive the wave with an input.
    sing.update_all_nodes(&vec![q16(1.0), 0, 0], q16(0.5));

    let evolved_psi = sing.mwso.psi_real.clone();

    // The wave must change.
    let mut changed = false;
    for i in 0..256 {
        if initial_psi[i] != evolved_psi[i] {
            changed = true;
            break;
        }
    }
    assert!(changed, "Wave state should evolve after input");
}
