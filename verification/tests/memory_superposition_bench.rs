use dark_singularity::singularity::Singularity;

fn qv(x: f64) -> i64 {
    (x * 65536.0).round() as i64
}

/// Helper to generate a distinct wave pattern for testing.
fn generate_pattern(dim: usize, seed: usize) -> (Vec<i64>, Vec<i64>) {
    let mut re = vec![0i64; dim];
    let mut im = vec![0i64; dim];
    for i in 0..dim {
        re[i] = qv((((i + seed) as f64) * 0.1).sin());
        im[i] = qv((((i + seed) as f64) * 0.1).cos());
    }
    (re, im)
}

fn overlap_magnitude(psi_re: &Vec<i64>, psi_im: &Vec<i64>, mem_re: &Vec<i64>, mem_im: &Vec<i64>) -> f64 {
    let dim = psi_re.len();
    let mut overlap_re = 0.0f64;
    let mut overlap_im = 0.0f64;
    for j in 0..dim {
        let pr = psi_re[j] as f64 / 65536.0;
        let pi = psi_im[j] as f64 / 65536.0;
        let mr = mem_re[j] as f64 / 65536.0;
        let mi = mem_im[j] as f64 / 65536.0;
        overlap_re += pr * mr + pi * mi;
        overlap_im += pr * mi - pi * mr;
    }
    (overlap_re * overlap_re + overlap_im * overlap_im).sqrt()
}

#[test]
fn benchmark_superposition_capacity() {
    let mut ai = Singularity::new(10, vec![10]);
    let dim = ai.mwso.dim;

    println!("\n--- DS-Bench: Quantum Superposition Capacity ---");
    println!("Task: Imprint multiple distinct patterns and measure resonance accuracy.");

    let num_patterns = 5;
    let mut patterns = Vec::new();

    for i in 0..num_patterns {
        let (re, im) = generate_pattern(dim, i * 100);
        patterns.push((re.clone(), im.clone()));
        ai.mwso.imprint_memory(&re, &im, qv(1.0));
    }

    println!("Imprinted {} patterns into a single memory wave.", num_patterns);

    let mut total_resonance = 0.0f64;
    for i in 0..num_patterns {
        ai.mwso.psi_real = patterns[i].0.clone();
        ai.mwso.psi_imag = patterns[i].1.clone();

        let resonance = overlap_magnitude(
            &ai.mwso.psi_real,
            &ai.mwso.psi_imag,
            &ai.mwso.memory_psi_real,
            &ai.mwso.memory_psi_imag,
        );
        println!("Pattern {:02} Resonance: {:.4}", i, resonance);
        total_resonance += resonance;
    }

    let avg_resonance = total_resonance / num_patterns as f64;
    println!("Average Retrieval Resonance: {:.4}", avg_resonance);

    assert!(avg_resonance > 0.3, "Resonance should be detectable even in superposition.");
}

#[test]
fn benchmark_noisy_recall_efficiency() {
    let mut ai = Singularity::new(10, vec![10]);
    let dim = ai.mwso.dim;

    println!("\n--- DS-Bench: Noisy Memory Recall Efficiency ---");
    println!("Task: Recover a clear state from a noisy input via memory resonance.");

    let (target_re, target_im) = generate_pattern(dim, 42);
    ai.mwso.imprint_memory(&target_re, &target_im, qv(2.0));

    let mut noisy_re = target_re.clone();
    let mut noisy_im = target_im.clone();
    for i in 0..dim {
        if i % 2 == 0 {
            noisy_re[i] = 0;
            noisy_im[i] = 0;
        }
    }

    ai.mwso.psi_real = noisy_re.clone();
    ai.mwso.psi_imag = noisy_im.clone();

    let mut dot = 0.0f64;
    for j in 0..dim {
        dot += (ai.mwso.psi_real[j] as f64 / 65536.0) * (target_re[j] as f64 / 65536.0)
            + (ai.mwso.psi_imag[j] as f64 / 65536.0) * (target_im[j] as f64 / 65536.0);
    }
    println!("Initial Fidelity: {:.4}", dot);

    for step in 1..=10 {
        ai.mwso.step_core(qv(0.1), 0, qv(1.0), qv(0.1), &Vec::new());

        let mut current_dot = 0.0f64;
        for j in 0..dim {
            current_dot += (ai.mwso.psi_real[j] as f64 / 65536.0) * (target_re[j] as f64 / 65536.0)
                + (ai.mwso.psi_imag[j] as f64 / 65536.0) * (target_im[j] as f64 / 65536.0);
        }
        println!("Step {:02} Fidelity: {:.4}", step, current_dot);
    }
}

#[test]
fn benchmark_memory_vs_non_memory() {
    let mut ai_mem = Singularity::new(10, vec![10]);
    let mut ai_none = Singularity::new(10, vec![10]);
    let dim = ai_mem.mwso.dim;

    println!("\n--- DS-Bench: Memory-Driven Stability ---");

    let (pat_re, pat_im) = generate_pattern(dim, 77);

    ai_mem.mwso.imprint_memory(&pat_re, &pat_im, qv(5.0));

    ai_mem.mwso.psi_real = pat_re.clone();
    ai_mem.mwso.psi_imag = pat_im.clone();
    ai_none.mwso.psi_real = pat_re.clone();
    ai_none.mwso.psi_imag = pat_im.clone();

    println!("Running 50 steps of dissipation...");
    for _ in 0..50 {
        ai_mem.mwso.step_core(qv(0.1), 0, 0, qv(0.5), &Vec::new());
        ai_none.mwso.step_core(qv(0.1), 0, 0, qv(0.5), &Vec::new());
    }

    let mut fidelity_mem = 0.0f64;
    let mut fidelity_none = 0.0f64;
    for i in 0..dim {
        fidelity_mem += (ai_mem.mwso.psi_real[i] as f64 / 65536.0) * (pat_re[i] as f64 / 65536.0)
            + (ai_mem.mwso.psi_imag[i] as f64 / 65536.0) * (pat_im[i] as f64 / 65536.0);
        fidelity_none += (ai_none.mwso.psi_real[i] as f64 / 65536.0) * (pat_re[i] as f64 / 65536.0)
            + (ai_none.mwso.psi_imag[i] as f64 / 65536.0) * (pat_im[i] as f64 / 65536.0);
    }

    println!("Final Fidelity (With Memory):    {:.4}", fidelity_mem);
    println!("Final Fidelity (Without Memory): {:.4}", fidelity_none);

    assert!(fidelity_mem > fidelity_none, "Memory resonance should maintain pattern fidelity!");
    println!("Fidelity Improvement: {:.1}%", (fidelity_mem / fidelity_none - 1.0) * 100.0);
}
