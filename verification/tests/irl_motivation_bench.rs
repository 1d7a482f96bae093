use dark_singularity::singularity::Singularity;

fn fq(x: f64) -> i64 {
    (x * 65536.0).round() as i64
}

/// Imitation without reward: acquire a rule by observation alone.
#[test]
fn benchmark_irl_imitation_learning() {
    let state_size = 10;
    let action_size = 10;
    let mut ai = Singularity::new(state_size, vec![action_size]);

    println!("\n--- DS-Bench: IRL (Inverse Reinforcement Learning) ---");
    println!("Task: Acquire rule (target = state) by observing expert WITHOUT rewards");

    println!("Phase 1: Observing Expert...");
    for i in 0..50 {
        let state_idx = i % state_size;
        let expert_action = state_idx;

        ai.observe_expert(state_idx, &vec![expert_action], fq(1.0));

        if (i + 1) % 10 == 0 {
            println!("  Observed {} steps...", i + 1);
        }
    }

    println!("Phase 2: Autonomous Execution (Based on inferred motivation)");
    let mut correct_count = 0;
    let test_steps = 20;

    for i in 0..test_steps {
        let state_idx = i % state_size;
        let target_action = state_idx;

        let actions = ai.select_actions(state_idx);
        let selected = actions[0] as usize;

        if selected == target_action {
            correct_count += 1;
        }

        println!(
            "  State {} | AI selected {} | Target {} | {}",
            state_idx,
            selected,
            target_action,
            if selected == target_action { "MATCH" } else { "MISS" }
        );
    }

    let acc = (correct_count as f64 / test_steps as f64) * 100.0;
    println!("Final IRL Acquisition Accuracy: {:.2}%", acc);

    assert!(acc > 50.0, "AI should infer motivation from expert actions");
}
