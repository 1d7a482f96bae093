use dark_singularity::singularity::Singularity;

fn fxs(x: f64) -> i64 {
    (x * 65536.0).round() as i64
}

#[test]
fn benchmark_rhyd_crystallization() {
    println!("\n=== Benchmark 2: Rhyd vs Prediction Stability (with Annealing) ===");
    let mut ai = Singularity::new(100, vec![10]);
    let action_size = 10;
    println!(
        "{:<10} | {:<10} | {:<10} | {:<15} | {:<10}",
        "Epoch", "Temp", "Rhyd", "Confidence", "Stable?"
    );
    println!("{}", "-".repeat(65));

    for epoch in 1..=200usize {
        let state_idx = epoch % 5;
        let target_action = (state_idx * 3) % action_size;
        ai.system_temperature = fxs((2.0 * (1.0 - epoch as f64 / 180.0)).max(0.01));
        let _ = ai.select_actions(state_idx);
        let reward = if ai.last_actions[0] % action_size == target_action {
            fxs(2.0)
        } else {
            fxs(-2.0)
        };
        ai.learn(reward);

        if epoch % 20 == 0 {
            let rhyd = ai.get_resonance_density();
            let dim = ai.mwso.dim;
            let scores = ai.mwso.get_action_scores(0, action_size, 0, &vec![0i64; dim]);
            let max_score = scores.iter().cloned().max().unwrap_or(0);
            let sum_score: i64 = scores.iter().map(|s| s >> 8).sum::<i64>() << 8;
            let confidence = if sum_score > 0 {
                max_score as f64 / sum_score as f64
            } else {
                0.0
            };
            println!(
                "{:<10} | {:<10.2} | {:<10.2} | {:<15.4} | {:<10}",
                epoch,
                ai.system_temperature as f64 / 65536.0,
                rhyd as f64 / 65536.0,
                confidence,
                if confidence > 0.90 { "CRYSTAL" } else { "FLUID" }
            );
        }
    }
}

#[test]
fn benchmark_thermal_phase_transition() {
    println!("\n=== Benchmark 3: Temperature (T) vs Convergence Speed (Hard Task) ===");
    let temperatures = vec![2.0, 1.2, 0.8, 0.4, 0.1];
    println!("{:<10} | {:<15} | {:<10}", "Temp (T)", "Epochs to Conv.", "Success Rate");
    println!("{}", "-".repeat(45));

    for &temp in &temperatures {
        let mut ai = Singularity::new(100, vec![5]);
        let mut success_streak = 0;
        let mut converged_at = 0;
        for epoch in 1..=1000usize {
            let state_idx = epoch % 20;
            let target_action = (state_idx * 3) % 5;
            ai.system_temperature = fxs(temp);
            let actions = ai.select_actions(state_idx);
            if actions[0] as usize == target_action {
                ai.learn(fxs(1.5));
                success_streak += 1;
            } else {
                ai.learn(fxs(-1.0));
                success_streak = 0;
            }
            if success_streak >= 40 {
                converged_at = epoch;
                break;
            }
        }
        let result = if converged_at > 0 {
            format!("{}", converged_at)
        } else {
            "FAILED".to_string()
        };
        println!(
            "{:<10.1} | {:<15} | {:<10}",
            temp,
            result,
            if converged_at > 0 { "100%" } else { "0%" }
        );
    }
}
