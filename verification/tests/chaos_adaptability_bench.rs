use dark_singularity::singularity::Singularity;

fn fc(x: f64) -> i64 {
    (x * 65536.0).round() as i64
}

/// Follow shifting targets while the state wanders chaotically.
#[test]
fn benchmark_chaos_dynamic_adaptation() {
    let state_size = 100;
    let action_size = 20;
    let mut ai = Singularity::new(state_size, vec![action_size]);

    println!("\n--- DS-Bench: Chaos & Dynamic Adaptation ---");
    println!("Task: Follow shifting targets in a logistic-map driven environment");

    let mut x: f32 = 0.7;
    let r: f32 = 3.99;

    let mut correct_count = 0;
    let mut window_correct = 0;
    let window_size = 200;
    let total_steps = 2000;

    let mut law_offset = 0;

    for i in 0..total_steps {
        x = r * x * (1.0 - x);
        let state_idx = (x * (state_size as f32 - 1.0)) as usize;

        if i == 1000 {
            println!("\n[EVENT] World Law Shifted! Re-adaptation required.");
            law_offset = 7;
            window_correct = 0;
        }

        let target_action = (state_idx + law_offset) % action_size;

        let actions = ai.select_actions(state_idx);
        let selected = actions[0] as usize;
        let is_correct = selected == target_action;

        if is_correct {
            correct_count += 1;
            window_correct += 1;
        }

        let reward = if is_correct { fc(3.0) } else { fc(-1.5) };
        ai.learn(reward);

        if (i + 1) % window_size == 0 {
            let acc = (window_correct as f32 / window_size as f32) * 100.0;
            println!(
                "Steps {:04}-{:04} | Law Offset: {} | Window Accuracy: {:>5.1}% | Rhyd: {:.2}",
                i - (window_size - 1) + 1,
                i + 1,
                law_offset,
                acc,
                ai.get_resonance_density() as f64 / 65536.0
            );
            window_correct = 0;
        }
    }

    let total_acc = (correct_count as f32 / total_steps as f32) * 100.0;
    println!("Final Chaos-Adaptation Score: {:.2}%", total_acc);

    assert!(total_acc > 10.0, "AI should demonstrate adaptability in chaotic environments");
}

/// Extract the dominant signal from interleaved state injections.
#[test]
fn benchmark_complex_interference_resolution() {
    let mut ai = Singularity::new(50, vec![10]);

    println!("\n--- DS-Bench: Complex Interference Resolution ---");
    println!("Task: Extract signal from simultaneous multi-state inputs");

    let total_steps = 300;
    let mut correct = 0;

    for i in 0..total_steps {
        let s1 = (i % 5) as usize;
        let s2 = (i % 7 + 10) as usize;
        let s3 = (i % 11 + 20) as usize;

        let target = (s1 * 2) % 10;

        ai.select_actions(s3);
        ai.select_actions(s2);
        let actions = ai.select_actions(s1);

        let selected = actions[0] as usize;
        if selected == target {
            correct += 1;
        }

        let reward = if selected == target { fc(2.0) } else { fc(-0.5) };
        ai.learn(reward);

        if (i + 1) % 100 == 0 {
            println!(
                "Step {:03} | Interference Resolution Accuracy: {:.1}%",
                i + 1,
                (correct as f32 / (i + 1) as f32) * 100.0
            );
        }
    }

    assert!(
        correct as f32 / total_steps as f32 > 0.4,
        "Should resolve primary signal among interference"
    );
}
