//! Monolithic wave-state operator: a fixed-dimension complex oscillator
//! array with learnable coupling parameters, a separate superposition
//! memory accumulator, optional directed phase couplings ("wormholes"),
//! and a per-dimension gravity field that slows the decay of reinforced
//! regions.

use vstd::prelude::*;
use crate::fx::{
    fx_add, fx_add_spec, fx_sub, fx_sub_spec, fx_mul, fx_mul_spec, fx_div, fx_div_spec, fx_min,
    fx_min_spec, fx_max, fx_max_spec, fx_clamp, fx_clamp_spec, fx_abs, fx_abs_spec, fx_sin,
    fx_sin_spec, fx_cos, fx_cos_spec, fx_exp, fx_exp_spec, fx_mag, fx_mag_spec, fx_mod_two_pi,
    fx_mod_two_pi_spec, fx_isqrt_u128, sqrt_floor, lemma_sqrt_floor_is, energy_acc_spec,
    wave_energy, fx_clip, FX_ONE, FX_HALF, FX_PI, FX_NEG_PI, FX_TWO_PI,
};
use crate::rng::{NoiseSource, noise_next_spec, noise_jitter_spec, NOISE_DEFAULT_SEED};

verus! {

/// Golden-ratio phase step (1.618).
pub const MWSO_GOLDEN: i64 = 106037;

/// Initial amplitude of every oscillator (0.01).
pub const MWSO_SEED_AMPLITUDE: i64 = 655;

/// Scale of the theta initialisation wave (0.1).
pub const MWSO_THETA_SEED: i64 = 6554;

/// Memory normalisation target per dimension (0.01).
pub const MWSO_MEMORY_TARGET_PER_DIM: i64 = 655;

/// Penalty-to-resistance exponent scale (-2.0).
pub const MWSO_RESISTANCE_RATE: i64 = -131072;

/// Base drive offset of an injection (1.5).
pub const MWSO_DRIVE_BASE: i64 = 98304;

/// The wave substrate.
pub struct MWSO {
    /// Real part of the active oscillation state, length `dim`.
    pub psi_real: Vec<i64>,
    /// Imaginary part of the active oscillation state, length `dim`.
    pub psi_imag: Vec<i64>,
    /// Coupling / phase-filter parameters (first half) and viscosity /
    /// success markers (second half), length `2 * dim`.
    pub theta: Vec<i64>,
    /// Natural frequency per dimension, monotonically increasing, length `dim`.
    pub frequencies: Vec<i64>,
    /// Inertia accumulated on strong success, in [0, 1], length `dim`.
    pub gravity_field: Vec<i64>,
    /// Directed phase couplings (source, target, strength).
    pub entanglements: Vec<(usize, usize, i64)>,
    /// Real part of the superposition memory wave, length `dim`.
    pub memory_psi_real: Vec<i64>,
    /// Imaginary part of the superposition memory wave, length `dim`.
    pub memory_psi_imag: Vec<i64>,
    /// Number of oscillator dimensions.
    pub dim: usize,
    /// Deterministic exploration-noise generator.
    pub noise: NoiseSource,
}

impl MWSO {
    /// Structural well-formedness: all arrays sized from `dim`, every
    /// entanglement endpoint in range, and `dim` small enough that index
    /// arithmetic stays comfortably inside `usize`.
    pub open spec fn wf(&self) -> bool {
        &&& self.psi_real@.len() == self.dim
        &&& self.psi_imag@.len() == self.dim
        &&& self.theta@.len() == 2 * self.dim
        &&& self.frequencies@.len() == self.dim
        &&& self.gravity_field@.len() == self.dim
        &&& self.memory_psi_real@.len() == self.dim
        &&& self.memory_psi_imag@.len() == self.dim
        &&& 0 < self.dim <= 0x100000
        &&& forall|k: int|
            0 <= k < self.entanglements@.len() ==> (#[trigger] self.entanglements@[k]).0
                < self.dim && self.entanglements@[k].1 < self.dim
    }
}

/// Initial coupling parameter at position `i`: a slow sine ripple scaled to
/// one tenth.
pub open spec fn init_theta_at(i: int) -> i64 {
    fx_mul_spec(fx_sin_spec((i * MWSO_THETA_SEED) as i64), MWSO_THETA_SEED)
}

/// Initial natural frequency at dimension `i`: the squared relative
/// position scaled to two pi, so frequencies increase with the index.
pub open spec fn init_freq_at(i: int, dim: int) -> i64 {
    let ratio = fx_div_spec((i * (FX_ONE as int)) as i64, (dim * (FX_ONE as int)) as i64);
    fx_mul_spec(fx_mul_spec(ratio, ratio), FX_TWO_PI)
}

impl MWSO {
    pub fn new(dim: usize) -> (r: MWSO)
        requires
            0 < dim <= 0x100000,
        ensures
            r.wf(),
            r.dim == dim,
            r.psi_real@ == Seq::new(dim as nat, |i: int| MWSO_SEED_AMPLITUDE),
            r.psi_imag@ == Seq::new(dim as nat, |i: int| 0i64),
            r.theta@ == Seq::new((2 * dim) as nat, |i: int| init_theta_at(i)),
            r.frequencies@ == Seq::new(dim as nat, |i: int| init_freq_at(i, dim as int)),
            r.gravity_field@ == Seq::new(dim as nat, |i: int| 0i64),
            r.entanglements@.len() == 0,
            r.memory_psi_real@ == Seq::new(dim as nat, |i: int| 0i64),
            r.memory_psi_imag@ == Seq::new(dim as nat, |i: int| 0i64),
            r.noise.state == NOISE_DEFAULT_SEED,
    {
        let theta_size = 2 * dim;
        let mut theta: Vec<i64> = Vec::new();
        let mut i: usize = 0;
        while i < theta_size
            invariant
                i <= theta_size,
                theta_size == 2 * dim,
                dim <= 0x100000,
                theta@.len() == i,
                forall|k: int| 0 <= k < i ==> theta@[k] == init_theta_at(k),
            decreases theta_size - i,
        {
            theta.push(fx_mul(fx_sin((i as i64) * MWSO_THETA_SEED), MWSO_THETA_SEED));
            i = i + 1;
        }

        let mut frequencies: Vec<i64> = Vec::new();
        let mut j: usize = 0;
        while j < dim
            invariant
                j <= dim,
                dim <= 0x100000,
                frequencies@.len() == j,
                forall|k: int| 0 <= k < j ==> frequencies@[k] == init_freq_at(k, dim as int),
            decreases dim - j,
        {
            let ratio = fx_div((j as i64) * FX_ONE, (dim as i64) * FX_ONE);
            frequencies.push(fx_mul(fx_mul(ratio, ratio), FX_TWO_PI));
            j = j + 1;
        }

        let psi_real = fill_i64(dim, MWSO_SEED_AMPLITUDE);
        let psi_imag = fill_i64(dim, 0);
        let gravity_field = fill_i64(dim, 0);
        let memory_psi_real = fill_i64(dim, 0);
        let memory_psi_imag = fill_i64(dim, 0);

        let r = MWSO {
            psi_real,
            psi_imag,
            theta,
            frequencies,
            gravity_field,
            entanglements: Vec::new(),
            memory_psi_real,
            memory_psi_imag,
            dim,
            noise: NoiseSource::new(NOISE_DEFAULT_SEED),
        };
        proof {
            assert(r.psi_real@ =~= Seq::new(dim as nat, |i: int| MWSO_SEED_AMPLITUDE));
            assert(r.psi_imag@ =~= Seq::new(dim as nat, |i: int| 0i64));
            assert(r.theta@ =~= Seq::new((2 * dim) as nat, |i: int| init_theta_at(i)));
            assert(r.frequencies@ =~= Seq::new(dim as nat, |i: int| init_freq_at(i, dim as int)));
            assert(r.gravity_field@ =~= Seq::new(dim as nat, |i: int| 0i64));
            assert(r.memory_psi_real@ =~= Seq::new(dim as nat, |i: int| 0i64));
            assert(r.memory_psi_imag@ =~= Seq::new(dim as nat, |i: int| 0i64));
        }
        r
    }

    /// Register a directed phase coupling; endpoints out of range are
    /// ignored rather than raising.
    pub fn add_wormhole(&mut self, from: usize, to: usize, strength: i64)
        requires
            old(self).wf(),
        ensures
            final(self).wf(),
            final(self).entanglements@ == if from < old(self).dim && to < old(self).dim {
                old(self).entanglements@.push((from, to, strength))
            } else {
                old(self).entanglements@
            },
            final(self).psi_real == old(self).psi_real,
            final(self).psi_imag == old(self).psi_imag,
            final(self).theta == old(self).theta,
            final(self).frequencies == old(self).frequencies,
            final(self).gravity_field == old(self).gravity_field,
            final(self).memory_psi_real == old(self).memory_psi_real,
            final(self).memory_psi_imag == old(self).memory_psi_imag,
            final(self).dim == old(self).dim,
            final(self).noise == old(self).noise,
    {
        if from < self.dim && to < self.dim {
            self.entanglements.push((from, to, strength));
        }
    }
}

/// A vector of `n` copies of `value`.
fn fill_i64(n: usize, value: i64) -> (r: Vec<i64>)
    ensures
        r@.len() == n,
        forall|k: int| 0 <= k < n ==> r@[k] == value,
{
    let mut v: Vec<i64> = Vec::new();
    let mut i: usize = 0;
    while i < n
        invariant
            i <= n,
            v@.len() == i,
            forall|k: int| 0 <= k < i ==> v@[k] == value,
        decreases n - i,
    {
        v.push(value);
        i = i + 1;
    }
    v
}

/// An owned copy of a fixed-point vector.
pub fn copy_i64_vec(v: &Vec<i64>) -> (r: Vec<i64>)
    ensures
        r@ == v@,
{
    let n = v.len();
    let mut out: Vec<i64> = Vec::new();
    let mut i: usize = 0;
    while i < n
        invariant
            i <= n,
            n == v@.len(),
            out@.len() == i,
            forall|k: int| 0 <= k < i ==> out@[k] == v@[k],
        decreases n - i,
    {
        out.push(v[i]);
        i = i + 1;
    }
    proof {
        assert(out@ =~= v@);
    }
    out
}

/// Every element scaled by a fixed factor.
pub open spec fn scaled_spec(v: Seq<i64>, factor: i64) -> Seq<i64> {
    Seq::new(v.len(), |i: int| fx_mul_spec(v[i], factor))
}

/// Scale every element of a vector in place.
pub fn scale_in_place(v: &mut Vec<i64>, factor: i64)
    ensures
        final(v)@ == scaled_spec(old(v)@, factor),
{
    let n = v.len();
    let mut i: usize = 0;
    while i < n
        invariant
            i <= n,
            n == v@.len() == old(v)@.len(),
            forall|k: int| 0 <= k < i ==> v@[k] == fx_mul_spec(old(v)@[k], factor),
            forall|k: int| i <= k < n ==> v@[k] == old(v)@[k],
        decreases n - i,
    {
        let nv = fx_mul(v[i], factor);
        v.set(i, nv);
        i = i + 1;
    }
    proof {
        assert(v@ =~= scaled_spec(old(v)@, factor));
    }
}

/// The wave renormalised so that its total energy meets `target`: both
/// components scaled by `target / norm`, unless the current norm is below
/// one fixed-point unit (the epsilon guard, which leaves the wave as it is).
pub open spec fn normalize_pair_spec(re: Seq<i64>, im: Seq<i64>, target: i64) -> (Seq<i64>, Seq<i64>) {
    let e = energy_acc_spec(re, im, re.len() as int);
    let norm = fx_clip(sqrt_floor(e as int));
    if norm >= 1 {
        let factor = fx_div_spec(target, norm);
        (scaled_spec(re, factor), scaled_spec(im, factor))
    } else {
        (re, im)
    }
}

/// Renormalise a complex wave to the given target norm.
fn normalize_pair(re: &mut Vec<i64>, im: &mut Vec<i64>, target: i64)
    requires
        old(re)@.len() == old(im)@.len(),
    ensures
        final(re)@ == normalize_pair_spec(old(re)@, old(im)@, target).0,
        final(im)@ == normalize_pair_spec(old(re)@, old(im)@, target).1,
        final(re)@.len() == old(re)@.len(),
        final(im)@.len() == old(im)@.len(),
{
    let e = wave_energy(re, im);
    let s = fx_isqrt_u128(e);
    proof {
        lemma_sqrt_floor_is(e as int, s as int);
    }
    let norm: i64 = if s > i64::MAX as u128 {
        i64::MAX
    } else {
        s as i64
    };
    if norm >= 1 {
        let factor = fx_div(target, norm);
        scale_in_place(re, factor);
        scale_in_place(im, factor);
    }
}

/// The memory wave after superposing a strength-scaled copy of a state.
pub open spec fn imprint_add_spec(mem: Seq<i64>, src: Seq<i64>, strength: i64) -> Seq<i64> {
    Seq::new(mem.len(), |i: int| fx_add_spec(mem[i], fx_mul_spec(src[i], strength)))
}

impl MWSO {
    /// Superpose a state into the global memory wave, then renormalise the
    /// memory to a norm proportional to the dimension count.  A state of
    /// the wrong shape is ignored.
    pub fn imprint_memory(&mut self, psi_real: &Vec<i64>, psi_imag: &Vec<i64>, strength: i64)
        requires
            old(self).wf(),
        ensures
            final(self).wf(),
            ({
                let changed = psi_real@.len() == old(self).dim && psi_imag@.len() == old(self).dim;
                let added_re = imprint_add_spec(old(self).memory_psi_real@, psi_real@, strength);
                let added_im = imprint_add_spec(old(self).memory_psi_imag@, psi_imag@, strength);
                let target = fx_mul_spec((old(self).dim * (FX_ONE as int)) as i64, MWSO_MEMORY_TARGET_PER_DIM);
                &&& final(self).memory_psi_real@ == if changed {
                    normalize_pair_spec(added_re, added_im, target).0
                } else {
                    old(self).memory_psi_real@
                }
                &&& final(self).memory_psi_imag@ == if changed {
                    normalize_pair_spec(added_re, added_im, target).1
                } else {
                    old(self).memory_psi_imag@
                }
            }),
            final(self).psi_real == old(self).psi_real,
            final(self).psi_imag == old(self).psi_imag,
            final(self).theta == old(self).theta,
            final(self).frequencies == old(self).frequencies,
            final(self).gravity_field == old(self).gravity_field,
            final(self).entanglements == old(self).entanglements,
            final(self).dim == old(self).dim,
            final(self).noise == old(self).noise,
    {
        if psi_real.len() != self.dim || psi_imag.len() != self.dim {
            return ;
        }
        let n = self.dim;
        let mut i: usize = 0;
        while i < n
            invariant
                i <= n,
                self.wf(),
                self.dim == n,
                psi_real@.len() == n,
                psi_imag@.len() == n,
                forall|k: int|
                    0 <= k < i ==> self.memory_psi_real@[k] == fx_add_spec(
                        old(self).memory_psi_real@[k],
                        fx_mul_spec(psi_real@[k], strength),
                    ),
                forall|k: int|
                    0 <= k < i ==> self.memory_psi_imag@[k] == fx_add_spec(
                        old(self).memory_psi_imag@[k],
                        fx_mul_spec(psi_imag@[k], strength),
                    ),
                forall|k: int| i <= k < n ==> self.memory_psi_real@[k] == old(self).memory_psi_real@[k],
                forall|k: int| i <= k < n ==> self.memory_psi_imag@[k] == old(self).memory_psi_imag@[k],
                self.psi_real == old(self).psi_real,
                self.psi_imag == old(self).psi_imag,
                self.theta == old(self).theta,
                self.frequencies == old(self).frequencies,
                self.gravity_field == old(self).gravity_field,
                self.entanglements == old(self).entanglements,
                self.noise == old(self).noise,
            decreases n - i,
        {
            let nr = fx_add(self.memory_psi_real[i], fx_mul(psi_real[i], strength));
            let ni = fx_add(self.memory_psi_imag[i], fx_mul(psi_imag[i], strength));
            self.memory_psi_real.set(i, nr);
            self.memory_psi_imag.set(i, ni);
            i = i + 1;
        }
        proof {
            assert(self.memory_psi_real@ =~= imprint_add_spec(
                old(self).memory_psi_real@,
                psi_real@,
                strength,
            ));
            assert(self.memory_psi_imag@ =~= imprint_add_spec(
                old(self).memory_psi_imag@,
                psi_imag@,
                strength,
            ));
        }
        let target = fx_mul((self.dim as i64) * FX_ONE, MWSO_MEMORY_TARGET_PER_DIM);
        normalize_pair(&mut self.memory_psi_real, &mut self.memory_psi_imag, target);
    }
}

/// The fixed prime stride used to spread an injection across the substrate,
/// selected by the state index so that different states hit different bins.
pub open spec fn prime_stride_spec(state_idx: int) -> int {
    let r = state_idx % 10;
    if r == 0 {
        31
    } else if r == 1 {
        37
    } else if r == 2 {
        41
    } else if r == 3 {
        43
    } else if r == 4 {
        47
    } else if r == 5 {
        53
    } else if r == 6 {
        59
    } else if r == 7 {
        61
    } else if r == 8 {
        67
    } else {
        71
    }
}

fn prime_stride(state_idx: usize) -> (r: usize)
    ensures
        r == prime_stride_spec(state_idx as int),
        31 <= r <= 71,
{
    let sel = state_idx % 10;
    if sel == 0 {
        31
    } else if sel == 1 {
        37
    } else if sel == 2 {
        41
    } else if sel == 3 {
        43
    } else if sel == 4 {
        47
    } else if sel == 5 {
        53
    } else if sel == 6 {
        59
    } else if sel == 7 {
        61
    } else if sel == 8 {
        67
    } else {
        71
    }
}

/// The golden-ratio phase offset unique to a state index.
pub open spec fn inject_phase_offset_spec(state_idx: int) -> i64 {
    fx_mod_two_pi_spec(fx_mul_spec((state_idx * (FX_ONE as int)) as i64, MWSO_GOLDEN))
}

/// The active wave after the first `k` of the sixteen injection taps.
/// Each tap adds a drive to one bin, attenuated by the penalty there
/// (soft resistance) and modulated by the phase filter of that bin.
pub open spec fn inject_fold_spec(
    re: Seq<i64>,
    im: Seq<i64>,
    theta: Seq<i64>,
    penalty: Seq<i64>,
    dim: int,
    state_idx: int,
    strength: i64,
    k: int,
) -> (Seq<i64>, Seq<i64>)
    decreases k,
{
    if k <= 0 {
        (re, im)
    } else {
        let prev = inject_fold_spec(re, im, theta, penalty, dim, state_idx, strength, k - 1);
        let idx = (state_idx + (k - 1) * prime_stride_spec(state_idx)) % dim;
        let p = if idx < penalty.len() {
            penalty[idx]
        } else {
            0i64
        };
        let resistance = fx_exp_spec(fx_mul_spec(p, MWSO_RESISTANCE_RATE));
        let phase_filter = fx_add_spec(fx_cos_spec(theta[idx]), inject_phase_offset_spec(state_idx));
        let drive = fx_mul_spec(
            fx_mul_spec(strength, fx_add_spec(MWSO_DRIVE_BASE, fx_cos_spec(phase_filter))),
            resistance,
        );
        (
            prev.0.update(idx, fx_add_spec(prev.0[idx], drive)),
            prev.1.update(idx, fx_add_spec(prev.1[idx], fx_mul_spec(drive, fx_sin_spec(phase_filter)))),
        )
    }
}


/// The wave after a full sixteen-tap injection; a state index outside the
/// substrate leaves the wave unchanged.
#[verifier::opaque]
pub open spec fn inject_state_spec(
    re: Seq<i64>,
    im: Seq<i64>,
    theta: Seq<i64>,
    penalty: Seq<i64>,
    dim: int,
    state_idx: int,
    strength: i64,
) -> (Seq<i64>, Seq<i64>) {
    if state_idx < dim {
        inject_fold_spec(re, im, theta, penalty, dim, state_idx, strength, 16)
    } else {
        (re, im)
    }
}

impl MWSO {
    /// Spread `strength` across sixteen bins selected by a fixed prime
    /// stride, each tap attenuated by the penalty field and phase-filtered.
    /// A state index outside the substrate is ignored.
    pub fn inject_state(&mut self, state_idx: usize, strength: i64, penalty_field: &Vec<i64>)
        requires
            old(self).wf(),
        ensures
            final(self).wf(),
            ({
                let injected = inject_state_spec(
                    old(self).psi_real@,
                    old(self).psi_imag@,
                    old(self).theta@,
                    penalty_field@,
                    old(self).dim as int,
                    state_idx as int,
                    strength,
                );
                final(self).psi_real@ == injected.0 && final(self).psi_imag@ == injected.1
            }),
            final(self).theta == old(self).theta,
            final(self).frequencies == old(self).frequencies,
            final(self).gravity_field == old(self).gravity_field,
            final(self).entanglements == old(self).entanglements,
            final(self).memory_psi_real == old(self).memory_psi_real,
            final(self).memory_psi_imag == old(self).memory_psi_imag,
            final(self).dim == old(self).dim,
            final(self).noise == old(self).noise,
    {
        proof {
            reveal(crate::mwso::inject_state_spec);
        }
        if state_idx >= self.dim {
            return ;
        }
        let stride = prime_stride(state_idx);
        let phase_offset = fx_mod_two_pi(fx_mul((state_idx as i64) * FX_ONE, MWSO_GOLDEN));

        let mut k: usize = 0;
        while k < 16
            invariant
                k <= 16,
                self.wf(),
                self.dim == old(self).dim,
                state_idx < self.dim,
                stride == prime_stride_spec(state_idx as int),
                phase_offset == inject_phase_offset_spec(state_idx as int),
                ({
                    let folded = inject_fold_spec(
                        old(self).psi_real@,
                        old(self).psi_imag@,
                        old(self).theta@,
                        penalty_field@,
                        old(self).dim as int,
                        state_idx as int,
                        strength,
                        k as int,
                    );
                    self.psi_real@ == folded.0 && self.psi_imag@ == folded.1
                }),
                self.theta == old(self).theta,
                self.frequencies == old(self).frequencies,
                self.gravity_field == old(self).gravity_field,
                self.entanglements == old(self).entanglements,
                self.memory_psi_real == old(self).memory_psi_real,
                self.memory_psi_imag == old(self).memory_psi_imag,
                self.noise == old(self).noise,
            decreases 16 - k,
        {
            let idx = (state_idx + k * stride) % self.dim;
            let p: i64 = if idx < penalty_field.len() {
                penalty_field[idx]
            } else {
                0
            };
            let resistance = fx_exp(fx_mul(p, MWSO_RESISTANCE_RATE));
            let phase_filter = fx_add(fx_cos(self.theta[idx]), phase_offset);
            let drive = fx_mul(fx_mul(strength, fx_add(MWSO_DRIVE_BASE, fx_cos(phase_filter))), resistance);
            let nr = fx_add(self.psi_real[idx], drive);
            let ni = fx_add(self.psi_imag[idx], fx_mul(drive, fx_sin(phase_filter)));
            self.psi_real.set(idx, nr);
            self.psi_imag.set(idx, ni);
            k = k + 1;
        }
    }

    /// Superpose an externally supplied state onto the active wave; a state
    /// of the wrong shape is ignored.
    pub fn inject_external_state(&mut self, psi_real: &Vec<i64>, psi_imag: &Vec<i64>, strength: i64)
        requires
            old(self).wf(),
        ensures
            final(self).wf(),
            ({
                let changed = psi_real@.len() == old(self).dim && psi_imag@.len() == old(self).dim;
                &&& final(self).psi_real@ == if changed {
                    imprint_add_spec(old(self).psi_real@, psi_real@, strength)
                } else {
                    old(self).psi_real@
                }
                &&& final(self).psi_imag@ == if changed {
                    imprint_add_spec(old(self).psi_imag@, psi_imag@, strength)
                } else {
                    old(self).psi_imag@
                }
            }),
            final(self).theta == old(self).theta,
            final(self).frequencies == old(self).frequencies,
            final(self).gravity_field == old(self).gravity_field,
            final(self).entanglements == old(self).entanglements,
            final(self).memory_psi_real == old(self).memory_psi_real,
            final(self).memory_psi_imag == old(self).memory_psi_imag,
            final(self).dim == old(self).dim,
            final(self).noise == old(self).noise,
    {
        if psi_real.len() != self.dim || psi_imag.len() != self.dim {
            return ;
        }
        let n = self.dim;
        let mut i: usize = 0;
        while i < n
            invariant
                i <= n,
                self.wf(),
                self.dim == n,
                psi_real@.len() == n,
                psi_imag@.len() == n,
                forall|k: int|
                    0 <= k < i ==> self.psi_real@[k] == fx_add_spec(
                        old(self).psi_real@[k],
                        fx_mul_spec(psi_real@[k], strength),
                    ),
                forall|k: int|
                    0 <= k < i ==> self.psi_imag@[k] == fx_add_spec(
                        old(self).psi_imag@[k],
                        fx_mul_spec(psi_imag@[k], strength),
                    ),
                forall|k: int| i <= k < n ==> self.psi_real@[k] == old(self).psi_real@[k],
                forall|k: int| i <= k < n ==> self.psi_imag@[k] == old(self).psi_imag@[k],
                self.theta == old(self).theta,
                self.frequencies == old(self).frequencies,
                self.gravity_field == old(self).gravity_field,
                self.entanglements == old(self).entanglements,
                self.memory_psi_real == old(self).memory_psi_real,
                self.memory_psi_imag == old(self).memory_psi_imag,
                self.noise == old(self).noise,
            decreases n - i,
        {
            let nr = fx_add(self.psi_real[i], fx_mul(psi_real[i], strength));
            let ni = fx_add(self.psi_imag[i], fx_mul(psi_imag[i], strength));
            self.psi_real.set(i, nr);
            self.psi_imag.set(i, ni);
            i = i + 1;
        }
        proof {
            assert(self.psi_real@ =~= imprint_add_spec(old(self).psi_real@, psi_real@, strength));
            assert(self.psi_imag@ =~= imprint_add_spec(old(self).psi_imag@, psi_imag@, strength));
        }
    }
}

/// The real component and the generator state after `n` per-dimension
/// noise taps, each a jitter of plus or minus `strength` at most.
pub open spec fn noise_fold_spec(re: Seq<i64>, s: u64, strength: i64, n: int) -> (Seq<i64>, u64)
    decreases n,
{
    if n <= 0 {
        (re, s)
    } else {
        let prev = noise_fold_spec(re, s, strength, n - 1);
        let s2 = noise_next_spec(prev.1);
        let jit = noise_jitter_spec(s2, fx_mul_spec(strength, 131072));
        (prev.0.update(n - 1, fx_add_spec(prev.0[n - 1], jit)), s2)
    }
}

impl MWSO {
    /// Add bounded pseudo-random jitter to the real component of every
    /// dimension, for exploration.
    pub fn inject_exploration_noise(&mut self, strength: i64)
        requires
            old(self).wf(),
        ensures
            final(self).wf(),
            ({
                let folded = noise_fold_spec(
                    old(self).psi_real@,
                    old(self).noise.state,
                    strength,
                    old(self).dim as int,
                );
                final(self).psi_real@ == folded.0 && final(self).noise.state == folded.1
            }),
            final(self).psi_imag == old(self).psi_imag,
            final(self).theta == old(self).theta,
            final(self).frequencies == old(self).frequencies,
            final(self).gravity_field == old(self).gravity_field,
            final(self).entanglements == old(self).entanglements,
            final(self).memory_psi_real == old(self).memory_psi_real,
            final(self).memory_psi_imag == old(self).memory_psi_imag,
            final(self).dim == old(self).dim,
    {
        let n = self.dim;
        let scale = fx_mul(strength, 131072);
        let mut i: usize = 0;
        while i < n
            invariant
                i <= n,
                self.wf(),
                self.dim == n,
                scale == fx_mul_spec(strength, 131072),
                ({
                    let folded = noise_fold_spec(
                        old(self).psi_real@,
                        old(self).noise.state,
                        strength,
                        i as int,
                    );
                    self.psi_real@ == folded.0 && self.noise.state == folded.1
                }),
                self.psi_imag == old(self).psi_imag,
                self.theta == old(self).theta,
                self.frequencies == old(self).frequencies,
                self.gravity_field == old(self).gravity_field,
                self.entanglements == old(self).entanglements,
                self.memory_psi_real == old(self).memory_psi_real,
                self.memory_psi_imag == old(self).memory_psi_imag,
            decreases n - i,
        {
            let jit = self.noise.jitter(scale);
            let nv = fx_add(self.psi_real[i], jit);
            self.psi_real.set(i, nv);
            i = i + 1;
        }
    }
}

/// The coupling parameters after one solidification step: the first half
/// (couplings and phase filters) decays by the solidification factor, the
/// second half (viscosity and success markers) is untouched.
pub open spec fn solidified_theta_spec(theta: Seq<i64>, solid: i64, dim: int) -> Seq<i64> {
    Seq::new(theta.len(), |i: int| if i < dim {
        fx_mul_spec(theta[i], solid)
    } else {
        theta[i]
    })
}

/// Decay the first `dim` coupling parameters by the solidification factor.
fn solidify_theta(theta: &mut Vec<i64>, solid: i64, dim: usize)
    requires
        old(theta)@.len() == 2 * dim,
    ensures
        final(theta)@ == solidified_theta_spec(old(theta)@, solid, dim as int),
{
    let mut i: usize = 0;
    while i < dim
        invariant
            i <= dim,
            theta@.len() == 2 * dim,
            forall|k: int| 0 <= k < i ==> theta@[k] == fx_mul_spec(old(theta)@[k], solid),
            forall|k: int| i <= k < 2 * dim ==> theta@[k] == old(theta)@[k],
        decreases dim - i,
    {
        let nv = fx_mul(theta[i], solid);
        theta.set(i, nv);
        i = i + 1;
    }
    proof {
        assert(theta@ =~= solidified_theta_spec(old(theta)@, solid, dim as int));
    }
}

/// Complex overlap of the active wave with the memory wave over the first
/// `n` dimensions, accumulated left to right.
pub open spec fn overlap_fold_spec(re: Seq<i64>, im: Seq<i64>, mre: Seq<i64>, mim: Seq<i64>, n: int) -> (
    i64,
    i64,
)
    decreases n,
{
    if n <= 0 {
        (0, 0)
    } else {
        let prev = overlap_fold_spec(re, im, mre, mim, n - 1);
        let i = n - 1;
        (
            fx_add_spec(prev.0, fx_add_spec(fx_mul_spec(re[i], mre[i]), fx_mul_spec(im[i], mim[i]))),
            fx_add_spec(prev.1, fx_sub_spec(fx_mul_spec(re[i], mim[i]), fx_mul_spec(im[i], mre[i]))),
        )
    }
}

/// Compute the overlap (resonance) of the active wave with the memory wave.
fn compute_overlap(re: &Vec<i64>, im: &Vec<i64>, mre: &Vec<i64>, mim: &Vec<i64>) -> (r: (i64, i64))
    requires
        re@.len() == im@.len() == mre@.len() == mim@.len(),
    ensures
        r == overlap_fold_spec(re@, im@, mre@, mim@, re@.len() as int),
{
    let n = re.len();
    let mut ore: i64 = 0;
    let mut oim: i64 = 0;
    let mut i: usize = 0;
    while i < n
        invariant
            i <= n,
            n == re@.len() == im@.len() == mre@.len() == mim@.len(),
            (ore, oim) == overlap_fold_spec(re@, im@, mre@, mim@, i as int),
        decreases n - i,
    {
        ore = fx_add(ore, fx_add(fx_mul(re[i], mre[i]), fx_mul(im[i], mim[i])));
        oim = fx_add(oim, fx_sub(fx_mul(re[i], mim[i]), fx_mul(im[i], mre[i])));
        i = i + 1;
    }
    (ore, oim)
}

/// One dimension of the core evolution step, computed from a snapshot of
/// the wave: linear phase rotation, nearest-neighbour ring coupling,
/// memory reminiscence inflow, then gravity- and penalty-modulated
/// viscosity damping.
pub open spec fn evolve_at_spec(
    re: Seq<i64>,
    im: Seq<i64>,
    theta: Seq<i64>,
    freq: Seq<i64>,
    gravity: Seq<i64>,
    penalty: Seq<i64>,
    mem_re: Seq<i64>,
    mem_im: Seq<i64>,
    amp: i64,
    eff_dt: i64,
    focus: i64,
    dim: int,
    i: int,
) -> (i64, i64) {
    let rot = fx_mul_spec(freq[i], eff_dt);
    let sinw = fx_sin_spec(rot);
    let cosw = fx_cos_spec(rot);
    let rotated_re = fx_sub_spec(fx_mul_spec(re[i], cosw), fx_mul_spec(im[i], sinw));
    let rotated_im = fx_add_spec(fx_mul_spec(re[i], sinw), fx_mul_spec(im[i], cosw));
    let next = if i + 1 == dim {
        0
    } else {
        i + 1
    };
    let prior = if i == 0 {
        dim - 1
    } else {
        i - 1
    };
    let coupling = fx_mul_spec(theta[i], fx_add_spec(re[next], re[prior]));
    let mflow_re = fx_mul_spec(fx_mul_spec(mem_re[i], amp), FX_HALF);
    let mflow_im = fx_mul_spec(fx_mul_spec(mem_im[i], amp), FX_HALF);
    let gain = fx_mul_spec(eff_dt, fx_add_spec(FX_ONE, focus));
    let grown_re = fx_add_spec(rotated_re, fx_mul_spec(fx_add_spec(coupling, mflow_re), gain));
    let grown_im = fx_add_spec(rotated_im, fx_mul_spec(mflow_im, gain));
    let p = if i < penalty.len() {
        penalty[i]
    } else {
        0i64
    };
    let marker = fx_abs_spec(fx_clamp_spec(theta[i + dim], -65536i64, 65536i64));
    let base_visc = fx_mul_spec(655, fx_sub_spec(72090, marker));
    let visc = fx_add_spec(
        fx_mul_spec(base_visc, fx_max_spec(fx_sub_spec(FX_ONE, gravity[i]), 66)),
        fx_mul_spec(p, FX_HALF),
    );
    let damp = fx_max_spec(fx_sub_spec(FX_ONE, fx_mul_spec(visc, eff_dt)), 0);
    (fx_mul_spec(grown_re, damp), fx_mul_spec(grown_im, damp))
}

/// Evolve every dimension from a snapshot of the wave.
fn evolve_dims(
    re: &Vec<i64>,
    im: &Vec<i64>,
    theta: &Vec<i64>,
    freq: &Vec<i64>,
    gravity: &Vec<i64>,
    penalty: &Vec<i64>,
    mem_re: &Vec<i64>,
    mem_im: &Vec<i64>,
    amp: i64,
    eff_dt: i64,
    focus: i64,
    dim: usize,
) -> (r: (Vec<i64>, Vec<i64>))
    requires
        re@.len() == dim,
        im@.len() == dim,
        theta@.len() == 2 * dim,
        freq@.len() == dim,
        gravity@.len() == dim,
        mem_re@.len() == dim,
        mem_im@.len() == dim,
        0 < dim <= 0x100000,
    ensures
        r.0@.len() == dim,
        r.1@.len() == dim,
        forall|i: int|
            0 <= i < dim ==> (r.0@[i], r.1@[i]) == evolve_at_spec(
                re@,
                im@,
                theta@,
                freq@,
                gravity@,
                penalty@,
                mem_re@,
                mem_im@,
                amp,
                eff_dt,
                focus,
                dim as int,
                i,
            ),
{
    let mut out_re: Vec<i64> = Vec::new();
    let mut out_im: Vec<i64> = Vec::new();
    let mut i: usize = 0;
    while i < dim
        invariant
            i <= dim,
            re@.len() == dim,
            im@.len() == dim,
            theta@.len() == 2 * dim,
            freq@.len() == dim,
            gravity@.len() == dim,
            mem_re@.len() == dim,
            mem_im@.len() == dim,
            0 < dim <= 0x100000,
            out_re@.len() == i,
            out_im@.len() == i,
            forall|k: int|
                0 <= k < i ==> (out_re@[k], out_im@[k]) == evolve_at_spec(
                    re@,
                    im@,
                    theta@,
                    freq@,
                    gravity@,
                    penalty@,
                    mem_re@,
                    mem_im@,
                    amp,
                    eff_dt,
                    focus,
                    dim as int,
                    k,
                ),
        decreases dim - i,
    {
        let rot = fx_mul(freq[i], eff_dt);
        let sinw = fx_sin(rot);
        let cosw = fx_cos(rot);
        let rotated_re = fx_sub(fx_mul(re[i], cosw), fx_mul(im[i], sinw));
        let rotated_im = fx_add(fx_mul(re[i], sinw), fx_mul(im[i], cosw));
        let next = if i + 1 == dim {
            0
        } else {
            i + 1
        };
        let prior = if i == 0 {
            dim - 1
        } else {
            i - 1
        };
        let coupling = fx_mul(theta[i], fx_add(re[next], re[prior]));
        let mflow_re = fx_mul(fx_mul(mem_re[i], amp), FX_HALF);
        let mflow_im = fx_mul(fx_mul(mem_im[i], amp), FX_HALF);
        let gain = fx_mul(eff_dt, fx_add(FX_ONE, focus));
        let grown_re = fx_add(rotated_re, fx_mul(fx_add(coupling, mflow_re), gain));
        let grown_im = fx_add(rotated_im, fx_mul(mflow_im, gain));
        let p: i64 = if i < penalty.len() {
            penalty[i]
        } else {
            0
        };
        let marker = fx_abs(fx_clamp(theta[i + dim], -65536, 65536));
        let base_visc = fx_mul(655, fx_sub(72090, marker));
        let visc = fx_add(
            fx_mul(base_visc, fx_max(fx_sub(FX_ONE, gravity[i]), 66)),
            fx_mul(p, FX_HALF),
        );
        let damp = fx_max(fx_sub(FX_ONE, fx_mul(visc, eff_dt)), 0);
        out_re.push(fx_mul(grown_re, damp));
        out_im.push(fx_mul(grown_im, damp));
        i = i + 1;
    }
    (out_re, out_im)
}

/// The wave after the first `n` directed phase couplings: each coupling
/// copies a strength- and time-scaled fraction of the source bin into the
/// target bin, in list order.
pub open spec fn entangle_fold_spec(
    re: Seq<i64>,
    im: Seq<i64>,
    ents: Seq<(usize, usize, i64)>,
    eff_dt: i64,
    n: int,
) -> (Seq<i64>, Seq<i64>)
    decreases n,
{
    if n <= 0 {
        (re, im)
    } else {
        let prev = entangle_fold_spec(re, im, ents, eff_dt, n - 1);
        let ent = ents[n - 1];
        let a = ent.0 as int;
        let b = ent.1 as int;
        if a < prev.0.len() && b < prev.0.len() {
            (
                prev.0.update(b, fx_add_spec(prev.0[b], fx_mul_spec(fx_mul_spec(prev.0[a], ent.2), eff_dt))),
                prev.1.update(b, fx_add_spec(prev.1[b], fx_mul_spec(fx_mul_spec(prev.1[a], ent.2), eff_dt))),
            )
        } else {
            prev
        }
    }
}

/// Apply every directed phase coupling in list order.
fn apply_entanglements(re: &mut Vec<i64>, im: &mut Vec<i64>, ents: &Vec<(usize, usize, i64)>, eff_dt: i64)
    requires
        old(re)@.len() == old(im)@.len(),
    ensures
        final(re)@ == entangle_fold_spec(old(re)@, old(im)@, ents@, eff_dt, ents@.len() as int).0,
        final(im)@ == entangle_fold_spec(old(re)@, old(im)@, ents@, eff_dt, ents@.len() as int).1,
        final(re)@.len() == old(re)@.len(),
        final(im)@.len() == old(im)@.len(),
{
    let n = ents.len();
    let mut i: usize = 0;
    while i < n
        invariant
            i <= n,
            n == ents@.len(),
            re@.len() == old(re)@.len(),
            im@.len() == old(im)@.len(),
            re@.len() == im@.len(),
            (re@, im@) == entangle_fold_spec(old(re)@, old(im)@, ents@, eff_dt, i as int),
        decreases n - i,
    {
        let a = ents[i].0;
        let b = ents[i].1;
        let s = ents[i].2;
        if a < re.len() && b < re.len() {
            let source_re = re[a];
            let source_im = im[a];
            let nr = fx_add(re[b], fx_mul(fx_mul(source_re, s), eff_dt));
            let ni = fx_add(im[b], fx_mul(fx_mul(source_im, s), eff_dt));
            re.set(b, nr);
            im.set(b, ni);
        }
        i = i + 1;
    }
}


/// The full core evolution step on a picture of the substrate: returns the
/// new couplings and the new oscillation state.
#[verifier::opaque]
pub open spec fn step_core_spec(
    re: Seq<i64>,
    im: Seq<i64>,
    theta: Seq<i64>,
    freq: Seq<i64>,
    gravity: Seq<i64>,
    mem_re: Seq<i64>,
    mem_im: Seq<i64>,
    ents: Seq<(usize, usize, i64)>,
    dim: int,
    dt: i64,
    speed_boost: i64,
    focus_factor: i64,
    system_temp: i64,
    penalty: Seq<i64>,
) -> (Seq<i64>, Seq<i64>, Seq<i64>) {
    let solid = fx_sub_spec(65529, fx_mul_spec(33, fx_sub_spec(FX_ONE, focus_factor)));
    let eff_dt = fx_mul_spec(dt, fx_add_spec(FX_ONE, speed_boost));
    let theta1 = solidified_theta_spec(theta, solid, dim);
    let ov = overlap_fold_spec(re, im, mem_re, mem_im, dim);
    let amp = fx_min_spec(fx_mag_spec(ov.0, ov.1), FX_ONE);
    let evolved_re = Seq::new(dim as nat, |i: int| evolve_at_spec(
        re,
        im,
        theta1,
        freq,
        gravity,
        penalty,
        mem_re,
        mem_im,
        amp,
        eff_dt,
        focus_factor,
        dim,
        i,
    ).0);
    let evolved_im = Seq::new(dim as nat, |i: int| evolve_at_spec(
        re,
        im,
        theta1,
        freq,
        gravity,
        penalty,
        mem_re,
        mem_im,
        amp,
        eff_dt,
        focus_factor,
        dim,
        i,
    ).1);
    let coupled = entangle_fold_spec(evolved_re, evolved_im, ents, eff_dt, ents.len() as int);
    let target = fx_add_spec(FX_ONE, fx_min_spec(fx_mul_spec(system_temp, FX_HALF), 98304));
    let normed = normalize_pair_spec(coupled.0, coupled.1, target);
    (theta1, normed.0, normed.1)
}

impl MWSO {
    /// One core evolution step: solidify the couplings, measure memory
    /// resonance, rotate and couple every dimension, apply the directed
    /// phase couplings, then renormalise the total energy to the
    /// temperature-dependent target.
    pub fn step_core(&mut self, dt: i64, speed_boost: i64, focus_factor: i64, system_temp: i64, penalty_field: &Vec<i64>)
        requires
            old(self).wf(),
        ensures
            final(self).wf(),
            ({
                let stepped = step_core_spec(
                    old(self).psi_real@,
                    old(self).psi_imag@,
                    old(self).theta@,
                    old(self).frequencies@,
                    old(self).gravity_field@,
                    old(self).memory_psi_real@,
                    old(self).memory_psi_imag@,
                    old(self).entanglements@,
                    old(self).dim as int,
                    dt,
                    speed_boost,
                    focus_factor,
                    system_temp,
                    penalty_field@,
                );
                &&& final(self).theta@ == stepped.0
                &&& final(self).psi_real@ == stepped.1
                &&& final(self).psi_imag@ == stepped.2
            }),
            final(self).frequencies == old(self).frequencies,
            final(self).gravity_field == old(self).gravity_field,
            final(self).entanglements == old(self).entanglements,
            final(self).memory_psi_real == old(self).memory_psi_real,
            final(self).memory_psi_imag == old(self).memory_psi_imag,
            final(self).dim == old(self).dim,
            final(self).noise == old(self).noise,
    {
        proof {
            reveal(crate::mwso::step_core_spec);
        }
        let solid = fx_sub(65529, fx_mul(33, fx_sub(FX_ONE, focus_factor)));
        let eff_dt = fx_mul(dt, fx_add(FX_ONE, speed_boost));
        let dim = self.dim;

        solidify_theta(&mut self.theta, solid, dim);

        let ov = compute_overlap(
            &self.psi_real,
            &self.psi_imag,
            &self.memory_psi_real,
            &self.memory_psi_imag,
        );
        let amp = fx_min(fx_mag(ov.0, ov.1), FX_ONE);

        let evolved = evolve_dims(
            &self.psi_real,
            &self.psi_imag,
            &self.theta,
            &self.frequencies,
            &self.gravity_field,
            penalty_field,
            &self.memory_psi_real,
            &self.memory_psi_imag,
            amp,
            eff_dt,
            focus_factor,
            dim,
        );
        let (mut new_re, mut new_im) = evolved;
        proof {
            assert(new_re@ =~= Seq::new(dim as nat, |i: int| evolve_at_spec(
                old(self).psi_real@,
                old(self).psi_imag@,
                self.theta@,
                old(self).frequencies@,
                old(self).gravity_field@,
                penalty_field@,
                old(self).memory_psi_real@,
                old(self).memory_psi_imag@,
                amp,
                eff_dt,
                focus_factor,
                dim as int,
                i,
            ).0));
            assert(new_im@ =~= Seq::new(dim as nat, |i: int| evolve_at_spec(
                old(self).psi_real@,
                old(self).psi_imag@,
                self.theta@,
                old(self).frequencies@,
                old(self).gravity_field@,
                penalty_field@,
                old(self).memory_psi_real@,
                old(self).memory_psi_imag@,
                amp,
                eff_dt,
                focus_factor,
                dim as int,
                i,
            ).1));
        }

        apply_entanglements(&mut new_re, &mut new_im, &self.entanglements, eff_dt);

        let target = fx_add(FX_ONE, fx_min(fx_mul(system_temp, FX_HALF), 98304));
        normalize_pair(&mut new_re, &mut new_im, target);

        self.psi_real = new_re;
        self.psi_imag = new_im;
    }
}

/// Accumulated resonance density over the first `n` dimensions: for every
/// bin with more than negligible energy, the energy weighted by how close
/// the bin's phase is to zero (the canonical success phase).
pub open spec fn rhyd_acc_spec(re: Seq<i64>, im: Seq<i64>, n: int) -> i64
    decreases n,
{
    if n <= 0 {
        0
    } else {
        let prev = rhyd_acc_spec(re, im, n - 1);
        let e = fx_add_spec(fx_mul_spec(re[n - 1], re[n - 1]), fx_mul_spec(im[n - 1], im[n - 1]));
        if e > 66 {
            let term = fx_mul_spec(
                fx_add_spec(fx_mul_spec(fx_mag_spec(re[n - 1], im[n - 1]), re[n - 1]), e),
                FX_HALF,
            );
            fx_add_spec(prev, term)
        } else {
            prev
        }
    }
}

impl MWSO {
    /// The resonance density ("Rhyd"): energy-weighted phase alignment,
    /// scaled to a per-hundred-dimensions figure.
    pub fn calculate_rhyd(&self) -> (r: i64)
        requires
            self.wf(),
        ensures
            r == fx_div_spec(
                fx_mul_spec(rhyd_acc_spec(self.psi_real@, self.psi_imag@, self.dim as int), 6553600),
                (self.dim * (FX_ONE as int)) as i64,
            ),
    {
        let n = self.dim;
        let mut acc: i64 = 0;
        let mut i: usize = 0;
        while i < n
            invariant
                i <= n,
                self.wf(),
                self.dim == n,
                acc == rhyd_acc_spec(self.psi_real@, self.psi_imag@, i as int),
            decreases n - i,
        {
            let re = self.psi_real[i];
            let im = self.psi_imag[i];
            let e = fx_add(fx_mul(re, re), fx_mul(im, im));
            if e > 66 {
                let mag = fx_mag(re, im);
                let term = fx_mul(fx_add(fx_mul(mag, re), e), FX_HALF);
                acc = fx_add(acc, term);
            }
            i = i + 1;
        }
        fx_div(fx_mul(acc, 6553600), (n as i64) * FX_ONE)
    }
}

/// Wave score and accumulated penalty of the first `j` bins of one action:
/// per bin the projection of the oscillation onto the phase picked out by
/// the coupling parameter, summed, and the penalty mass of the bin.
pub open spec fn score_bins_spec(
    re: Seq<i64>,
    im: Seq<i64>,
    theta: Seq<i64>,
    penalty: Seq<i64>,
    dim: int,
    center: int,
    j: int,
) -> (i64, i64)
    decreases j,
{
    if j <= 0 {
        (0, 0)
    } else {
        let prev = score_bins_spec(re, im, theta, penalty, dim, center, j - 1);
        let idx = (center + (j - 1)) % dim;
        let p = if idx < penalty.len() {
            penalty[idx]
        } else {
            0i64
        };
        (
            fx_add_spec(
                prev.0,
                fx_add_spec(
                    fx_mul_spec(re[idx], fx_cos_spec(theta[idx])),
                    fx_mul_spec(im[idx], fx_sin_spec(theta[idx])),
                ),
            ),
            fx_add_spec(prev.1, p),
        )
    }
}

/// The sharpened score of one action: bin projections minus half the
/// penalty mass, exponentiated (and capped) to sharpen separation.
pub open spec fn action_score_spec(
    re: Seq<i64>,
    im: Seq<i64>,
    theta: Seq<i64>,
    penalty: Seq<i64>,
    dim: int,
    center: int,
    nbins: int,
) -> i64 {
    let b = score_bins_spec(re, im, theta, penalty, dim, center, nbins);
    fx_exp_spec(fx_mul_spec(fx_sub_spec(b.0, fx_mul_spec(b.1, FX_HALF)), 98304))
}

/// The score list of the first `i` actions together with the generator
/// state, jitter being drawn only when exploration noise is switched on.
pub open spec fn scores_fold_spec(
    re: Seq<i64>,
    im: Seq<i64>,
    theta: Seq<i64>,
    penalty: Seq<i64>,
    dim: int,
    offset: int,
    nbins: int,
    noise_amt: i64,
    s: u64,
    i: int,
) -> (Seq<i64>, u64)
    decreases i,
{
    if i <= 0 {
        (Seq::empty(), s)
    } else {
        let prev = scores_fold_spec(re, im, theta, penalty, dim, offset, nbins, noise_amt, s, i - 1);
        let center = (offset + (i - 1) * nbins) % dim;
        let base = action_score_spec(re, im, theta, penalty, dim, center, nbins);
        if noise_amt > 0 {
            let s2 = noise_next_spec(prev.1);
            (prev.0.push(fx_add_spec(base, noise_jitter_spec(s2, noise_amt))), s2)
        } else {
            (prev.0.push(base), prev.1)
        }
    }
}

impl MWSO {
    /// Score the `size` actions whose bins start at `offset`: each action
    /// owns `dim / size` contiguous bins, scored by phase alignment and
    /// softened by the penalty field, with optional bounded exploration
    /// jitter.
    pub fn get_action_scores(&mut self, offset: usize, size: usize, exploration_noise: i64, penalty_field: &Vec<i64>) -> (r: Vec<i64>)
        requires
            old(self).wf(),
            1 <= size,
            offset <= 0x40000000,
        ensures
            final(self).wf(),
            r@.len() == size,
            ({
                let folded = scores_fold_spec(
                    old(self).psi_real@,
                    old(self).psi_imag@,
                    old(self).theta@,
                    penalty_field@,
                    old(self).dim as int,
                    offset as int,
                    (old(self).dim / size) as int,
                    exploration_noise,
                    old(self).noise.state,
                    size as int,
                );
                r@ == folded.0 && final(self).noise.state == folded.1
            }),
            final(self).psi_real == old(self).psi_real,
            final(self).psi_imag == old(self).psi_imag,
            final(self).theta == old(self).theta,
            final(self).frequencies == old(self).frequencies,
            final(self).gravity_field == old(self).gravity_field,
            final(self).entanglements == old(self).entanglements,
            final(self).memory_psi_real == old(self).memory_psi_real,
            final(self).memory_psi_imag == old(self).memory_psi_imag,
            final(self).dim == old(self).dim,
    {
        let dim = self.dim;
        let nbins = dim / size;
        let mut scores: Vec<i64> = Vec::new();
        let mut i: usize = 0;
        while i < size
            invariant
                i <= size,
                1 <= size,
                offset <= 0x40000000,
                self.wf(),
                self.dim == dim,
                nbins == dim / size,
                nbins <= dim,
                scores@.len() == i,
                ({
                    let folded = scores_fold_spec(
                        old(self).psi_real@,
                        old(self).psi_imag@,
                        old(self).theta@,
                        penalty_field@,
                        dim as int,
                        offset as int,
                        nbins as int,
                        exploration_noise,
                        old(self).noise.state,
                        i as int,
                    );
                    scores@ == folded.0 && self.noise.state == folded.1
                }),
                self.psi_real == old(self).psi_real,
                self.psi_imag == old(self).psi_imag,
                self.theta == old(self).theta,
                self.frequencies == old(self).frequencies,
                self.gravity_field == old(self).gravity_field,
                self.entanglements == old(self).entanglements,
                self.memory_psi_real == old(self).memory_psi_real,
                self.memory_psi_imag == old(self).memory_psi_imag,
            decreases size - i,
        {
            proof {
                assert(i * nbins <= size * nbins) by (nonlinear_arith)
                    requires
                        0 <= i <= size,
                        0 <= nbins,
                ;
                assert(size * nbins <= dim) by (nonlinear_arith)
                    requires
                        nbins == dim / size,
                        1 <= size,
                        0 <= dim,
                ;
            }
            let center = (offset + i * nbins) % dim;
            let mut score: i64 = 0;
            let mut pen: i64 = 0;
            let mut j: usize = 0;
            while j < nbins
                invariant
                    j <= nbins,
                    nbins <= dim,
                    center < dim,
                    self.wf(),
                    self.dim == dim,
                    (score, pen) == score_bins_spec(
                        self.psi_real@,
                        self.psi_imag@,
                        self.theta@,
                        penalty_field@,
                        dim as int,
                        center as int,
                        j as int,
                    ),
                decreases nbins - j,
            {
                let idx = (center + j) % dim;
                let p: i64 = if idx < penalty_field.len() {
                    penalty_field[idx]
                } else {
                    0
                };
                score = fx_add(
                    score,
                    fx_add(
                        fx_mul(self.psi_real[idx], fx_cos(self.theta[idx])),
                        fx_mul(self.psi_imag[idx], fx_sin(self.theta[idx])),
                    ),
                );
                pen = fx_add(pen, p);
                j = j + 1;
            }
            let base = fx_exp(fx_mul(fx_sub(score, fx_mul(pen, FX_HALF)), 98304));
            if exploration_noise > 0 {
                let jit = self.noise.jitter(exploration_noise);
                scores.push(fx_add(base, jit));
            } else {
                scores.push(base);
            }
            i = i + 1;
        }
        scores
    }
}

/// A spec-level image of the whole substrate, used to state what the
/// adaptation pass does as a fold over the selected actions.
pub struct WavePicture {
    pub re: Seq<i64>,
    pub im: Seq<i64>,
    pub theta: Seq<i64>,
    pub freq: Seq<i64>,
    pub gravity: Seq<i64>,
    pub mem_re: Seq<i64>,
    pub mem_im: Seq<i64>,
}

pub open spec fn picture_of(m: MWSO) -> WavePicture {
    WavePicture {
        re: m.psi_real@,
        im: m.psi_imag@,
        theta: m.theta@,
        freq: m.frequencies@,
        gravity: m.gravity_field@,
        mem_re: m.memory_psi_real@,
        mem_im: m.memory_psi_imag@,
    }
}

/// Per-call gravity step on strong success (0.1).
pub const MWSO_GRAVITY_STEP: i64 = 6554;

/// Memory imprint fraction of the reward (0.2).
pub const MWSO_IMPRINT_RATE: i64 = 13107;

/// Frequency detune step on failure (0.001).
pub const MWSO_DETUNE_STEP: i64 = 66;

/// Gravity loss on failure (0.8).
pub const MWSO_GRAVITY_LOSS: i64 = 52429;

/// Neighbour learning weight (0.2).
pub const MWSO_NEIGHBOR_WEIGHT: i64 = 13107;

/// Base learning rate scale (1.2).
pub const MWSO_BASE_LR: i64 = 78643;

/// Success nudge scale of the oscillation (1.5).
pub const MWSO_SUCCESS_NUDGE: i64 = 98304;

/// Global gravity evaporation per adaptation call (0.999).
pub const MWSO_GRAVITY_EVAPORATION: i64 = 65470;

/// The gravity field after raising the first `j` bins of an action region
/// toward one.
pub open spec fn gravity_raise_fold(g: Seq<i64>, base: int, dim: int, j: int) -> Seq<i64>
    decreases j,
{
    if j <= 0 {
        g
    } else {
        let prev = gravity_raise_fold(g, base, dim, j - 1);
        let idx = (base + (j - 1)) % dim;
        prev.update(idx, fx_min_spec(fx_add_spec(prev[idx], MWSO_GRAVITY_STEP), FX_ONE))
    }
}

/// Frequencies and gravity after detuning the first `j` bins of an action
/// region on failure: the natural frequency creeps up (exploring alternate
/// timing) and the gravity weakens.
pub open spec fn detune_fold(freq: Seq<i64>, g: Seq<i64>, base: int, dim: int, j: int) -> (Seq<i64>, Seq<i64>)
    decreases j,
{
    if j <= 0 {
        (freq, g)
    } else {
        let prev = detune_fold(freq, g, base, dim, j - 1);
        let idx = (base + (j - 1)) % dim;
        (
            prev.0.update(idx, fx_clamp_spec(fx_add_spec(prev.0[idx], MWSO_DETUNE_STEP), 0, FX_TWO_PI)),
            prev.1.update(idx, fx_mul_spec(prev.1[idx], MWSO_GRAVITY_LOSS)),
        )
    }
}

/// Oscillation and couplings after phase-locking the first `j` bins of one
/// action region: the coupling parameter moves toward phase zero on reward
/// and toward pi on punishment, scaled down where gravity is strong; on
/// reward the oscillation itself is nudged along its own phase and the
/// success marker of the bin is set.
pub open spec fn lock_bins_fold(
    re: Seq<i64>,
    im: Seq<i64>,
    theta: Seq<i64>,
    g: Seq<i64>,
    reward: i64,
    lr: i64,
    nbase: int,
    dim: int,
    j: int,
) -> (Seq<i64>, Seq<i64>, Seq<i64>)
    decreases j,
{
    if j <= 0 {
        (re, im, theta)
    } else {
        let prev = lock_bins_fold(re, im, theta, g, reward, lr, nbase, dim, j - 1);
        let idx = (nbase + (j - 1)) % dim;
        let mag = fx_mag_spec(prev.0[idx], prev.1[idx]);
        let ratio = if mag >= 1 {
            fx_div_spec(prev.1[idx], mag)
        } else {
            0i64
        };
        let pds = if reward > 0 {
            fx_sub_spec(0, ratio)
        } else {
            ratio
        };
        let inertia = fx_sub_spec(FX_ONE, fx_mul_spec(g[idx], FX_HALF));
        let th1 = prev.2.update(
            idx,
            fx_clamp_spec(
                fx_add_spec(prev.2[idx], fx_mul_spec(fx_mul_spec(pds, lr), inertia)),
                FX_NEG_PI,
                FX_PI,
            ),
        );
        if reward > 0 {
            let cos_p = if mag >= 1 {
                fx_div_spec(prev.0[idx], mag)
            } else {
                FX_ONE
            };
            let boost = fx_mul_spec(MWSO_SUCCESS_NUDGE, reward);
            (
                prev.0.update(idx, fx_add_spec(prev.0[idx], fx_mul_spec(boost, cos_p))),
                prev.1.update(idx, fx_add_spec(prev.1[idx], fx_mul_spec(boost, ratio))),
                th1.update((idx + dim) % (2 * dim), FX_ONE),
            )
        } else {
            (prev.0, prev.1, th1)
        }
    }
}

/// Phase locking applied to an action and its two neighbouring regions,
/// the action itself at full weight and the neighbours at one fifth.
pub open spec fn neighborhood_fold(
    re: Seq<i64>,
    im: Seq<i64>,
    theta: Seq<i64>,
    g: Seq<i64>,
    reward: i64,
    base_lr: i64,
    action_idx: int,
    action_size: int,
    bpa: int,
    dim: int,
    t: int,
) -> (Seq<i64>, Seq<i64>, Seq<i64>)
    decreases t,
{
    if t <= 0 {
        (re, im, theta)
    } else {
        let prev = neighborhood_fold(re, im, theta, g, reward, base_lr, action_idx, action_size, bpa, dim, t - 1);
        let weight = if t - 1 == 1 {
            FX_ONE
        } else {
            MWSO_NEIGHBOR_WEIGHT
        };
        let target = (action_idx + (t - 2)) % action_size;
        let lr = fx_mul_spec(base_lr, weight);
        lock_bins_fold(prev.0, prev.1, prev.2, g, reward, lr, target * bpa, dim, bpa)
    }
}

/// One action's adaptation: on very strong reward, gravity accretes over
/// the action's bins and the current state is imprinted into the memory
/// wave; on failure the region detunes; in every case the action and its
/// neighbours are phase-locked toward the rewarded or punished phase.
pub open spec fn adapt_one_spec(
    w: WavePicture,
    reward: i64,
    action_idx: int,
    action_size: int,
    bpa: int,
    dim: int,
    base_lr: i64,
) -> WavePicture {
    let w1 = if reward > 131072 {
        let g2 = gravity_raise_fold(w.gravity, action_idx * bpa, dim, bpa);
        let rate = fx_mul_spec(reward, MWSO_IMPRINT_RATE);
        let added_re = imprint_add_spec(w.mem_re, w.re, rate);
        let added_im = imprint_add_spec(w.mem_im, w.im, rate);
        let target = fx_mul_spec((dim * (FX_ONE as int)) as i64, MWSO_MEMORY_TARGET_PER_DIM);
        let normed = normalize_pair_spec(added_re, added_im, target);
        WavePicture {
            re: w.re,
            im: w.im,
            theta: w.theta,
            freq: w.freq,
            gravity: g2,
            mem_re: normed.0,
            mem_im: normed.1,
        }
    } else {
        w
    };
    let w2 = if reward < 0 {
        let d = detune_fold(w1.freq, w1.gravity, action_idx * bpa, dim, bpa);
        WavePicture {
            re: w1.re,
            im: w1.im,
            theta: w1.theta,
            freq: d.0,
            gravity: d.1,
            mem_re: w1.mem_re,
            mem_im: w1.mem_im,
        }
    } else {
        w1
    };
    let locked = neighborhood_fold(
        w2.re,
        w2.im,
        w2.theta,
        w2.gravity,
        reward,
        base_lr,
        action_idx,
        action_size,
        bpa,
        dim,
        3,
    );
    WavePicture {
        re: locked.0,
        im: locked.1,
        theta: locked.2,
        freq: w2.freq,
        gravity: w2.gravity,
        mem_re: w2.mem_re,
        mem_im: w2.mem_im,
    }
}

/// The substrate after adapting to the first `n` selected actions in order.
pub open spec fn adapt_fold_spec(
    w: WavePicture,
    reward: i64,
    actions: Seq<usize>,
    action_size: int,
    bpa: int,
    dim: int,
    base_lr: i64,
    n: int,
) -> WavePicture
    decreases n,
{
    if n <= 0 {
        w
    } else {
        adapt_one_spec(
            adapt_fold_spec(w, reward, actions, action_size, bpa, dim, base_lr, n - 1),
            reward,
            actions[n - 1] as int,
            action_size,
            bpa,
            dim,
            base_lr,
        )
    }
}


/// The whole adaptation pass: the per-action fold followed by the global
/// gravity evaporation, with the learning rate annealed by temperature.
#[verifier::opaque]
pub open spec fn adapt_spec(
    w: WavePicture,
    reward: i64,
    actions: Seq<usize>,
    system_temp: i64,
    action_size: int,
    dim: int,
) -> WavePicture {
    let annealing = fx_clamp_spec(fx_mul_spec(system_temp, FX_HALF), 6554, FX_ONE);
    let base_lr = fx_mul_spec(MWSO_BASE_LR, annealing);
    let bpa = dim / action_size;
    let folded = adapt_fold_spec(w, reward, actions, action_size, bpa, dim, base_lr, actions.len() as int);
    WavePicture {
        re: folded.re,
        im: folded.im,
        theta: folded.theta,
        freq: folded.freq,
        gravity: scaled_spec(folded.gravity, MWSO_GRAVITY_EVAPORATION),
        mem_re: folded.mem_re,
        mem_im: folded.mem_im,
    }
}

/// Raise the gravity of the `bpa` bins starting at `base` (modulo `dim`).
fn raise_gravity_bins(g: &mut Vec<i64>, base: u64, bpa: usize, dim: usize)
    requires
        old(g)@.len() == dim,
        0 < dim <= 0x100000,
        base <= 0x10000000000,
        bpa <= dim,
    ensures
        final(g)@ == gravity_raise_fold(old(g)@, base as int, dim as int, bpa as int),
        final(g)@.len() == dim,
{
    let mut j: usize = 0;
    while j < bpa
        invariant
            j <= bpa,
            bpa <= dim,
            0 < dim <= 0x100000,
            base <= 0x10000000000,
            g@.len() == dim,
            g@ == gravity_raise_fold(old(g)@, base as int, dim as int, j as int),
        decreases bpa - j,
    {
        let idx = ((base + j as u64) % (dim as u64)) as usize;
        let nv = fx_min(fx_add(g[idx], MWSO_GRAVITY_STEP), FX_ONE);
        g.set(idx, nv);
        j = j + 1;
    }
}

/// Detune the frequencies and weaken the gravity of an action region.
fn detune_bins(freq: &mut Vec<i64>, g: &mut Vec<i64>, base: u64, bpa: usize, dim: usize)
    requires
        old(freq)@.len() == dim,
        old(g)@.len() == dim,
        0 < dim <= 0x100000,
        base <= 0x10000000000,
        bpa <= dim,
    ensures
        final(freq)@ == detune_fold(old(freq)@, old(g)@, base as int, dim as int, bpa as int).0,
        final(g)@ == detune_fold(old(freq)@, old(g)@, base as int, dim as int, bpa as int).1,
        final(freq)@.len() == dim,
        final(g)@.len() == dim,
{
    let mut j: usize = 0;
    while j < bpa
        invariant
            j <= bpa,
            bpa <= dim,
            0 < dim <= 0x100000,
            base <= 0x10000000000,
            freq@.len() == dim,
            g@.len() == dim,
            (freq@, g@) == detune_fold(old(freq)@, old(g)@, base as int, dim as int, j as int),
        decreases bpa - j,
    {
        let idx = ((base + j as u64) % (dim as u64)) as usize;
        let nf = fx_clamp(fx_add(freq[idx], MWSO_DETUNE_STEP), 0, FX_TWO_PI);
        let ng = fx_mul(g[idx], MWSO_GRAVITY_LOSS);
        freq.set(idx, nf);
        g.set(idx, ng);
        j = j + 1;
    }
}

/// Phase-lock the `bpa` bins starting at `nbase` (modulo `dim`).
fn lock_bins(
    re: &mut Vec<i64>,
    im: &mut Vec<i64>,
    theta: &mut Vec<i64>,
    g: &Vec<i64>,
    reward: i64,
    lr: i64,
    nbase: u64,
    bpa: usize,
    dim: usize,
)
    requires
        old(re)@.len() == dim,
        old(im)@.len() == dim,
        old(theta)@.len() == 2 * dim,
        g@.len() == dim,
        0 < dim <= 0x100000,
        nbase <= 0x10000000000,
        bpa <= dim,
    ensures
        ({
            let folded = lock_bins_fold(
                old(re)@,
                old(im)@,
                old(theta)@,
                g@,
                reward,
                lr,
                nbase as int,
                dim as int,
                bpa as int,
            );
            final(re)@ == folded.0 && final(im)@ == folded.1 && final(theta)@ == folded.2
        }),
        final(re)@.len() == dim,
        final(im)@.len() == dim,
        final(theta)@.len() == 2 * dim,
{
    let mut j: usize = 0;
    while j < bpa
        invariant
            j <= bpa,
            bpa <= dim,
            0 < dim <= 0x100000,
            nbase <= 0x10000000000,
            re@.len() == dim,
            im@.len() == dim,
            theta@.len() == 2 * dim,
            g@.len() == dim,
            ({
                let folded = lock_bins_fold(
                    old(re)@,
                    old(im)@,
                    old(theta)@,
                    g@,
                    reward,
                    lr,
                    nbase as int,
                    dim as int,
                    j as int,
                );
                re@ == folded.0 && im@ == folded.1 && theta@ == folded.2
            }),
        decreases bpa - j,
    {
        let idx = ((nbase + j as u64) % (dim as u64)) as usize;
        let cur_re = re[idx];
        let cur_im = im[idx];
        let mag = fx_mag(cur_re, cur_im);
        let ratio: i64 = if mag >= 1 {
            fx_div(cur_im, mag)
        } else {
            0
        };
        let pds: i64 = if reward > 0 {
            fx_sub(0, ratio)
        } else {
            ratio
        };
        let inertia = fx_sub(FX_ONE, fx_mul(g[idx], FX_HALF));
        let nt = fx_clamp(fx_add(theta[idx], fx_mul(fx_mul(pds, lr), inertia)), -FX_PI, FX_PI);
        theta.set(idx, nt);
        if reward > 0 {
            let cos_p: i64 = if mag >= 1 {
                fx_div(cur_re, mag)
            } else {
                FX_ONE
            };
            let boost = fx_mul(MWSO_SUCCESS_NUDGE, reward);
            re.set(idx, fx_add(cur_re, fx_mul(boost, cos_p)));
            im.set(idx, fx_add(cur_im, fx_mul(boost, ratio)));
            theta.set((idx + dim) % (2 * dim), FX_ONE);
        }
        j = j + 1;
    }
}

impl MWSO {
    /// Adapt the substrate to a reward over the selected actions: phase
    /// locking with a temperature-annealed learning rate, gravity
    /// accretion and memory imprint on strong success, detuning on
    /// failure, and a global slow evaporation of the gravity field.
    pub fn adapt(&mut self, reward: i64, last_actions: &Vec<usize>, system_temp: i64, action_size: usize)
        requires
            old(self).wf(),
            1 <= action_size <= 0x100000,
            forall|k: int| 0 <= k < last_actions@.len() ==> #[trigger] last_actions@[k] <= 0x100000,
        ensures
            final(self).wf(),
            ({
                let adapted = adapt_spec(
                    picture_of(*old(self)),
                    reward,
                    last_actions@,
                    system_temp,
                    action_size as int,
                    old(self).dim as int,
                );
                &&& final(self).psi_real@ == adapted.re
                &&& final(self).psi_imag@ == adapted.im
                &&& final(self).theta@ == adapted.theta
                &&& final(self).frequencies@ == adapted.freq
                &&& final(self).gravity_field@ == adapted.gravity
                &&& final(self).memory_psi_real@ == adapted.mem_re
                &&& final(self).memory_psi_imag@ == adapted.mem_im
            }),
            final(self).entanglements == old(self).entanglements,
            final(self).dim == old(self).dim,
            final(self).noise == old(self).noise,
    {
        proof {
            reveal(crate::mwso::adapt_spec);
        }
        let annealing = fx_clamp(fx_mul(system_temp, FX_HALF), 6554, FX_ONE);
        let base_lr = fx_mul(MWSO_BASE_LR, annealing);
        let dim = self.dim;
        let bpa = dim / action_size;
        proof {
            assert(dim / action_size <= dim) by (nonlinear_arith)
                requires
                    1 <= action_size,
                    0 <= dim,
            ;
        }

        let n = last_actions.len();
        let mut i: usize = 0;
        while i < n
            invariant
                i <= n,
                n == last_actions@.len(),
                forall|k: int| 0 <= k < n ==> #[trigger] last_actions@[k] <= 0x100000,
                1 <= action_size <= 0x100000,
                self.wf(),
                self.dim == dim,
                0 < dim <= 0x100000,
                bpa == dim / action_size,
                bpa <= dim,
                ({
                    let folded = adapt_fold_spec(
                        picture_of(*old(self)),
                        reward,
                        last_actions@,
                        action_size as int,
                        bpa as int,
                        dim as int,
                        base_lr,
                        i as int,
                    );
                    &&& self.psi_real@ == folded.re
                    &&& self.psi_imag@ == folded.im
                    &&& self.theta@ == folded.theta
                    &&& self.frequencies@ == folded.freq
                    &&& self.gravity_field@ == folded.gravity
                    &&& self.memory_psi_real@ == folded.mem_re
                    &&& self.memory_psi_imag@ == folded.mem_im
                }),
                self.entanglements == old(self).entanglements,
                self.noise == old(self).noise,
                annealing == fx_clamp_spec(fx_mul_spec(system_temp, FX_HALF), 6554, FX_ONE),
                base_lr == fx_mul_spec(MWSO_BASE_LR, annealing),
            decreases n - i,
        {
            let action_idx = last_actions[i];
            proof {
                assert((action_idx as int) * (bpa as int) <= 0x100000 * 0x100000) by (nonlinear_arith)
                    requires
                        0 <= action_idx <= 0x100000,
                        0 <= bpa <= 0x100000,
                ;
            }
            let base: u64 = (action_idx as u64) * (bpa as u64);

            if reward > 131072 {
                raise_gravity_bins(&mut self.gravity_field, base, bpa, dim);
                let snap_re = copy_i64_vec(&self.psi_real);
                let snap_im = copy_i64_vec(&self.psi_imag);
                self.imprint_memory(&snap_re, &snap_im, fx_mul(reward, MWSO_IMPRINT_RATE));
            }

            if reward < 0 {
                detune_bins(&mut self.frequencies, &mut self.gravity_field, base, bpa, dim);
            }

            let mut t: usize = 0;
            while t < 3
                invariant
                    t <= 3,
                    self.wf(),
                    self.dim == dim,
                    0 < dim <= 0x100000,
                    bpa <= dim,
                    1 <= action_size <= 0x100000,
                    action_idx <= 0x100000,
                    ({
                        let w2 = ({
                            let w1 = adapt_fold_spec(
                                picture_of(*old(self)),
                                reward,
                                last_actions@,
                                action_size as int,
                                bpa as int,
                                dim as int,
                                base_lr,
                                i as int,
                            );
                            let wa = if reward > 131072 {
                                let g2 = gravity_raise_fold(
                                    w1.gravity,
                                    (action_idx as int) * (bpa as int),
                                    dim as int,
                                    bpa as int,
                                );
                                let rate = fx_mul_spec(reward, MWSO_IMPRINT_RATE);
                                let added_re = imprint_add_spec(w1.mem_re, w1.re, rate);
                                let added_im = imprint_add_spec(w1.mem_im, w1.im, rate);
                                let target = fx_mul_spec(
                                    ((dim as int) * (FX_ONE as int)) as i64,
                                    MWSO_MEMORY_TARGET_PER_DIM,
                                );
                                let normed = normalize_pair_spec(added_re, added_im, target);
                                WavePicture {
                                    re: w1.re,
                                    im: w1.im,
                                    theta: w1.theta,
                                    freq: w1.freq,
                                    gravity: g2,
                                    mem_re: normed.0,
                                    mem_im: normed.1,
                                }
                            } else {
                                w1
                            };
                            if reward < 0 {
                                let d = detune_fold(
                                    wa.freq,
                                    wa.gravity,
                                    (action_idx as int) * (bpa as int),
                                    dim as int,
                                    bpa as int,
                                );
                                WavePicture {
                                    re: wa.re,
                                    im: wa.im,
                                    theta: wa.theta,
                                    freq: d.0,
                                    gravity: d.1,
                                    mem_re: wa.mem_re,
                                    mem_im: wa.mem_im,
                                }
                            } else {
                                wa
                            }
                        });
                        let locked = neighborhood_fold(
                            w2.re,
                            w2.im,
                            w2.theta,
                            w2.gravity,
                            reward,
                            base_lr,
                            action_idx as int,
                            action_size as int,
                            bpa as int,
                            dim as int,
                            t as int,
                        );
                        &&& self.psi_real@ == locked.0
                        &&& self.psi_imag@ == locked.1
                        &&& self.theta@ == locked.2
                        &&& self.frequencies@ == w2.freq
                        &&& self.gravity_field@ == w2.gravity
                        &&& self.memory_psi_real@ == w2.mem_re
                        &&& self.memory_psi_imag@ == w2.mem_im
                    }),
                    self.entanglements == old(self).entanglements,
                    self.noise == old(self).noise,
                decreases 3 - t,
            {
                let weight: i64 = if t == 1 {
                    FX_ONE
                } else {
                    MWSO_NEIGHBOR_WEIGHT
                };
                let shifted: i64 = (action_idx as i64) + (t as i64) - 1;
                let target_action: i64 = shifted.checked_rem_euclid(action_size as i64).unwrap();
                let lr = fx_mul(base_lr, weight);
                proof {
                    assert((target_action as int) * (bpa as int) <= 0x100000 * 0x100000)
                        by (nonlinear_arith)
                        requires
                            0 <= target_action <= 0x100000,
                            0 <= bpa <= 0x100000,
                    ;
                }
                let nbase: u64 = (target_action as u64) * (bpa as u64);
                lock_bins(
                    &mut self.psi_real,
                    &mut self.psi_imag,
                    &mut self.theta,
                    &self.gravity_field,
                    reward,
                    lr,
                    nbase,
                    bpa,
                    dim,
                );
                t = t + 1;
            }
            i = i + 1;
        }

        scale_in_place(&mut self.gravity_field, MWSO_GRAVITY_EVAPORATION);
    }

    /// Expert-imitation alignment: phase-lock one action's bins toward the
    /// canonical success phase and nudge amplitude and gravity upward,
    /// without a scalar reward.
    pub fn align_to_action(&mut self, action_idx: usize, strength: i64, action_size: usize)
        requires
            old(self).wf(),
            1 <= action_size <= 0x100000,
            action_idx <= 0x100000,
        ensures
            final(self).wf(),
            ({
                let bpa = (old(self).dim / action_size) as int;
                let base = ((action_idx as int) * bpa) % (old(self).dim as int);
                let lr = fx_mul_spec(FX_HALF, strength);
                let folded = align_fold(
                    old(self).psi_real@,
                    old(self).psi_imag@,
                    old(self).theta@,
                    old(self).gravity_field@,
                    strength,
                    lr,
                    base,
                    old(self).dim as int,
                    bpa,
                );
                &&& final(self).psi_real@ == folded.0
                &&& final(self).theta@ == folded.1
                &&& final(self).gravity_field@ == folded.2
            }),
            final(self).psi_imag == old(self).psi_imag,
            final(self).frequencies == old(self).frequencies,
            final(self).entanglements == old(self).entanglements,
            final(self).memory_psi_real == old(self).memory_psi_real,
            final(self).memory_psi_imag == old(self).memory_psi_imag,
            final(self).dim == old(self).dim,
            final(self).noise == old(self).noise,
    {
        let dim = self.dim;
        let bpa = dim / action_size;
        proof {
            assert(dim / action_size <= dim) by (nonlinear_arith)
                requires
                    1 <= action_size,
                    0 <= dim,
            ;
            assert((action_idx as int) * (bpa as int) <= 0x100000 * 0x100000) by (nonlinear_arith)
                requires
                    0 <= action_idx <= 0x100000,
                    0 <= bpa <= 0x100000,
            ;
        }
        let base: u64 = ((action_idx as u64) * (bpa as u64)) % (dim as u64);
        let lr = fx_mul(FX_HALF, strength);

        let mut j: usize = 0;
        while j < bpa
            invariant
                j <= bpa,
                bpa <= dim,
                self.wf(),
                self.dim == dim,
                0 < dim <= 0x100000,
                base < dim as u64,
                lr == fx_mul_spec(FX_HALF, strength),
                ({
                    let folded = align_fold(
                        old(self).psi_real@,
                        old(self).psi_imag@,
                        old(self).theta@,
                        old(self).gravity_field@,
                        strength,
                        lr,
                        base as int,
                        dim as int,
                        j as int,
                    );
                    &&& self.psi_real@ == folded.0
                    &&& self.theta@ == folded.1
                    &&& self.gravity_field@ == folded.2
                }),
                self.psi_imag == old(self).psi_imag,
                self.frequencies == old(self).frequencies,
                self.entanglements == old(self).entanglements,
                self.memory_psi_real == old(self).memory_psi_real,
                self.memory_psi_imag == old(self).memory_psi_imag,
                self.noise == old(self).noise,
            decreases bpa - j,
        {
            let idx = ((base + j as u64) % (dim as u64)) as usize;
            let cur_re = self.psi_real[idx];
            let cur_im = self.psi_imag[idx];
            let mag = fx_mag(cur_re, cur_im);
            let ratio: i64 = if mag >= 1 {
                fx_div(cur_im, mag)
            } else {
                0
            };
            let pds = fx_sub(0, ratio);
            let nt = fx_clamp(fx_add(self.theta[idx], fx_mul(pds, lr)), -FX_PI, FX_PI);
            self.theta.set(idx, nt);
            let nr = fx_add(cur_re, fx_mul(MWSO_NEIGHBOR_WEIGHT, strength));
            self.psi_real.set(idx, nr);
            let ng = fx_min(fx_add(self.gravity_field[idx], fx_mul(MWSO_SEED_AMPLITUDE, strength)), FX_HALF);
            self.gravity_field.set(idx, ng);
            j = j + 1;
        }
    }
}

/// Oscillation, couplings and gravity after aligning the first `j` bins of
/// an observed action toward phase zero.
pub open spec fn align_fold(
    re: Seq<i64>,
    im: Seq<i64>,
    theta: Seq<i64>,
    g: Seq<i64>,
    strength: i64,
    lr: i64,
    base: int,
    dim: int,
    j: int,
) -> (Seq<i64>, Seq<i64>, Seq<i64>)
    decreases j,
{
    if j <= 0 {
        (re, theta, g)
    } else {
        let prev = align_fold(re, im, theta, g, strength, lr, base, dim, j - 1);
        let idx = (base + (j - 1)) % dim;
        let mag = fx_mag_spec(prev.0[idx], im[idx]);
        let ratio = if mag >= 1 {
            fx_div_spec(im[idx], mag)
        } else {
            0i64
        };
        let pds = fx_sub_spec(0, ratio);
        (
            prev.0.update(idx, fx_add_spec(prev.0[idx], fx_mul_spec(MWSO_NEIGHBOR_WEIGHT, strength))),
            prev.1.update(
                idx,
                fx_clamp_spec(fx_add_spec(prev.1[idx], fx_mul_spec(pds, lr)), FX_NEG_PI, FX_PI),
            ),
            prev.2.update(idx, fx_min_spec(fx_add_spec(prev.2[idx], fx_mul_spec(MWSO_SEED_AMPLITUDE, strength)), FX_HALF)),
        )
    }
}

} // verus!
