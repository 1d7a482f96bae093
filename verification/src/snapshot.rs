//! The persisted snapshot format: a 12-byte header (magic, version, state
//! size) followed by a payload of little-endian 64-bit words holding every
//! persisted engine field in a fixed order.

use vstd::prelude::*;
use vstd::arithmetic::div_mod::lemma_fundamental_div_mod;

verus! {

/// The four magic bytes "DSYM".
pub open spec fn magic_bytes() -> Seq<u8> {
    seq![68u8, 83u8, 89u8, 77u8]
}

/// Snapshot format version.
pub const SNAPSHOT_VERSION: u32 = 1;

/// The unsigned 64-bit image of a fixed-point value (two's complement).
pub open spec fn u64_of_i64(x: int) -> int {
    if x < 0 {
        x + 0x10000000000000000
    } else {
        x
    }
}

/// The signed value of an unsigned 64-bit image.
pub open spec fn i64_of_u64(v: int) -> int {
    if v >= 0x8000000000000000 {
        v - 0x10000000000000000
    } else {
        v
    }
}

/// Little-endian bytes of a 32-bit value.
pub open spec fn u32_le(v: int) -> Seq<u8> {
    seq![
        (v % 256) as u8,
        ((v / 256) % 256) as u8,
        ((v / 65536) % 256) as u8,
        ((v / 16777216) % 256) as u8,
    ]
}

/// Little-endian bytes of a 64-bit value.
pub open spec fn u64_le(v: int) -> Seq<u8> {
    seq![
        (v % 256) as u8,
        ((v / 0x100) % 256) as u8,
        ((v / 0x10000) % 256) as u8,
        ((v / 0x1000000) % 256) as u8,
        ((v / 0x100000000) % 256) as u8,
        ((v / 0x10000000000) % 256) as u8,
        ((v / 0x1000000000000) % 256) as u8,
        ((v / 0x100000000000000) % 256) as u8,
    ]
}

/// The 32-bit value stored at a byte offset.
pub open spec fn le_u32_at(b: Seq<u8>, p: int) -> int {
    b[p] + 256 * b[p + 1] + 65536 * b[p + 2] + 16777216 * b[p + 3]
}

/// The 64-bit value stored at a byte offset.
pub open spec fn le_u64_at(b: Seq<u8>, p: int) -> int {
    b[p] + 0x100 * b[p + 1] + 0x10000 * b[p + 2] + 0x1000000 * b[p + 3] + 0x100000000 * b[p + 4]
        + 0x10000000000 * b[p + 5] + 0x1000000000000 * b[p + 6] + 0x100000000000000 * b[p + 7]
}

/// Reading back the little-endian bytes of a 32-bit value gives the value.
pub proof fn lemma_u32_le_roundtrip(v: int)
    requires
        0 <= v < 0x100000000,
    ensures
        le_u32_at(u32_le(v), 0) == v,
{
    lemma_fundamental_div_mod(v, 256);
    lemma_fundamental_div_mod(v / 256, 256);
    lemma_fundamental_div_mod(v / 65536, 256);
    assert(v / 256 / 256 == v / 65536) by (nonlinear_arith)
        requires
            0 <= v,
    ;
    assert(v / 65536 / 256 == v / 16777216) by (nonlinear_arith)
        requires
            0 <= v,
    ;
    assert(v / 16777216 % 256 == v / 16777216) by (nonlinear_arith)
        requires
            0 <= v < 0x100000000,
    ;
}

/// Reading back the little-endian bytes of a 64-bit value gives the value.
pub proof fn lemma_u64_le_roundtrip(v: int)
    requires
        0 <= v < 0x10000000000000000,
    ensures
        le_u64_at(u64_le(v), 0) == v,
{
    lemma_fundamental_div_mod(v, 256);
    lemma_fundamental_div_mod(v / 0x100, 256);
    lemma_fundamental_div_mod(v / 0x10000, 256);
    lemma_fundamental_div_mod(v / 0x1000000, 256);
    lemma_fundamental_div_mod(v / 0x100000000, 256);
    lemma_fundamental_div_mod(v / 0x10000000000, 256);
    lemma_fundamental_div_mod(v / 0x1000000000000, 256);
    assert(v / 0x100 / 256 == v / 0x10000) by (nonlinear_arith)
        requires
            0 <= v,
    ;
    assert(v / 0x10000 / 256 == v / 0x1000000) by (nonlinear_arith)
        requires
            0 <= v,
    ;
    assert(v / 0x1000000 / 256 == v / 0x100000000) by (nonlinear_arith)
        requires
            0 <= v,
    ;
    assert(v / 0x100000000 / 256 == v / 0x10000000000) by (nonlinear_arith)
        requires
            0 <= v,
    ;
    assert(v / 0x10000000000 / 256 == v / 0x1000000000000) by (nonlinear_arith)
        requires
            0 <= v,
    ;
    assert(v / 0x1000000000000 / 256 == v / 0x100000000000000) by (nonlinear_arith)
        requires
            0 <= v,
    ;
    assert(v / 0x100000000000000 % 256 == v / 0x100000000000000) by (nonlinear_arith)
        requires
            0 <= v < 0x10000000000000000,
    ;
}

/// The flat little-endian bytes of a word sequence.
pub open spec fn words_bytes(ws: Seq<u64>, n: int) -> Seq<u8>
    decreases n,
{
    if n <= 0 {
        Seq::empty()
    } else {
        words_bytes(ws, n - 1) + u64_le(ws[n - 1] as int)
    }
}

/// Flat word bytes have eight bytes per word.
pub proof fn lemma_words_bytes_len(ws: Seq<u64>, n: int)
    requires
        0 <= n,
    ensures
        words_bytes(ws, n).len() == 8 * n,
    decreases n,
{
    if n > 0 {
        lemma_words_bytes_len(ws, n - 1);
    }
}

/// The 64-bit value at word offset `k` of flat word bytes is word `k`.
pub proof fn lemma_words_bytes_at(ws: Seq<u64>, n: int, k: int)
    requires
        0 <= k < n,
    ensures
        le_u64_at(words_bytes(ws, n), 8 * k) == ws[k],
    decreases n,
{
    lemma_words_bytes_len(ws, n - 1);
    if k == n - 1 {
        lemma_u64_le_roundtrip(ws[k] as int);
        assert(le_u64_at(words_bytes(ws, n), 8 * k) == le_u64_at(u64_le(ws[k] as int), 0));
    } else {
        lemma_words_bytes_at(ws, n - 1, k);
        assert(le_u64_at(words_bytes(ws, n), 8 * k) == le_u64_at(words_bytes(ws, n - 1), 8 * k));
    }
}

/// Append the little-endian bytes of a 32-bit value.
pub fn push_u32(out: &mut Vec<u8>, v: u32)
    ensures
        final(out)@ == old(out)@ + u32_le(v as int),
{
    out.push((v % 256) as u8);
    out.push(((v / 256) % 256) as u8);
    out.push(((v / 65536) % 256) as u8);
    out.push(((v / 16777216) % 256) as u8);
    proof {
        assert(out@ =~= old(out)@ + u32_le(v as int));
    }
}

/// Append the little-endian bytes of a 64-bit value.
pub fn push_u64(out: &mut Vec<u8>, v: u64)
    ensures
        final(out)@ == old(out)@ + u64_le(v as int),
{
    out.push((v % 256) as u8);
    out.push(((v / 0x100) % 256) as u8);
    out.push(((v / 0x10000) % 256) as u8);
    out.push(((v / 0x1000000) % 256) as u8);
    out.push(((v / 0x100000000) % 256) as u8);
    out.push(((v / 0x10000000000) % 256) as u8);
    out.push(((v / 0x1000000000000) % 256) as u8);
    out.push(((v / 0x100000000000000) % 256) as u8);
    proof {
        assert(out@ =~= old(out)@ + u64_le(v as int));
    }
}

/// Read the 32-bit value at a byte offset.
pub fn read_u32(b: &Vec<u8>, p: usize) -> (r: u32)
    requires
        p + 4 <= b@.len(),
    ensures
        r as int == le_u32_at(b@, p as int),
{
    let blen: usize = b.len();
    proof {
        assert(p + 4 <= blen);
    }
    (b[p] as u32) + 256 * (b[p + 1] as u32) + 65536 * (b[p + 2] as u32) + 16777216 * (b[p + 3] as u32)
}

/// Read the 64-bit value at a byte offset.
pub fn read_u64(b: &Vec<u8>, p: usize) -> (r: u64)
    requires
        p + 8 <= b@.len(),
    ensures
        r as int == le_u64_at(b@, p as int),
{
    let blen: usize = b.len();
    proof {
        assert(p + 8 <= blen);
    }
    (b[p] as u64) + 0x100 * (b[p + 1] as u64) + 0x10000 * (b[p + 2] as u64) + 0x1000000 * (b[p + 3] as u64)
        + 0x100000000 * (b[p + 4] as u64) + 0x10000000000 * (b[p + 5] as u64) + 0x1000000000000 * (b[p
        + 6] as u64) + 0x100000000000000 * (b[p + 7] as u64)
}

/// The unsigned word image of a fixed-point value.
pub fn word_of_fx(x: i64) -> (r: u64)
    ensures
        r as int == u64_of_i64(x as int),
{
    if x >= 0 {
        x as u64
    } else {
        let d: u64 = (-1 - x) as u64;
        u64::MAX - d
    }
}

/// The fixed-point value of an unsigned word image.
pub fn fx_of_word(v: u64) -> (r: i64)
    ensures
        r as int == i64_of_u64(v as int),
{
    if v >= 0x8000000000000000 {
        let d: u64 = u64::MAX - v;
        -1 - (d as i64)
    } else {
        v as i64
    }
}

/// Round trip of the signed-to-unsigned word image.
pub proof fn lemma_word_roundtrip(x: int)
    requires
        -0x8000000000000000 <= x < 0x8000000000000000,
    ensures
        i64_of_u64(u64_of_i64(x)) == x,
{
}

/// Why a snapshot was rejected.  On any error the engine keeps its prior
/// in-memory state.
#[derive(Clone, Copy, Debug, PartialEq, Eq)]
pub enum SnapshotError {
    /// Bad magic, wrong version, or a truncated or inconsistent payload.
    MalformedSnapshot,
    /// The stored state size does not match the engine.
    IncompatibleDimensions,
}

/// The plain values held by a parsed snapshot.
#[verifier::ext_equal]
pub struct SnapView {
    pub temp: i64,
    pub adrenaline: i64,
    pub frustration: i64,
    pub velocity_trust: i64,
    pub morale: i64,
    pub patience: i64,
    pub beta: i64,
    pub buffer: i64,
    pub fatigue: Seq<i64>,
    pub momentum: Seq<i64>,
    pub gravity: Seq<i64>,
    pub input_history: Seq<usize>,
    pub node_states: Seq<i64>,
    pub node_decays: Seq<i64>,
    pub rules: Seq<(usize, usize, usize)>,
    pub wave: Option<(Seq<i64>, Seq<i64>, Seq<i64>)>,
}

/// The fixed-point value stored in a payload word.
pub open spec fn fx_at(ws: Seq<u64>, k: int) -> i64 {
    i64_of_u64(ws[k] as int) as i64
}

/// A 64-bit word clamped into the index range.
pub open spec fn usize_of_word(w: u64) -> usize {
    if w > usize::MAX as u64 {
        usize::MAX
    } else {
        w as usize
    }
}

/// The unsigned word image of a fixed-point value, as a word.
pub open spec fn word_of(x: i64) -> u64 {
    u64_of_i64(x as int) as u64
}

/// Number of payload words written for an engine.
pub open spec fn payload_len(e: crate::singularity::Singularity) -> int {
    let n = e.action_size as int;
    let d = e.mwso.dim as int;
    let ihl = e.input_history@.len() as int;
    let cl = e.category_sizes@.len() as int;
    let rl = e.learned_rules@.len() as int;
    8 + 2 * n + d + 1 + ihl + 1 + cl + 1 + 8 + 1 + 3 * rl + 1 + 2 * d + 1 + 2 * d
}

/// The payload word at position `i`: the eight persisted scalars, the
/// fatigue, momentum and gravity fields, the input trail, the category
/// layout, the four nodes, the learned rules, and the substrate state.
pub open spec fn word_at_spec(e: crate::singularity::Singularity, i: int) -> u64 {
    let n = e.action_size as int;
    let d = e.mwso.dim as int;
    let ihl = e.input_history@.len() as int;
    let cl = e.category_sizes@.len() as int;
    let rl = e.learned_rules@.len() as int;
    let o_fat: int = 8;
    let o_mom = o_fat + n;
    let o_grav = o_mom + n;
    let o_ihc = o_grav + d;
    let o_ih = o_ihc + 1;
    let o_cc = o_ih + ihl;
    let o_cat = o_cc + 1;
    let o_nc = o_cat + cl;
    let o_nodes = o_nc + 1;
    let o_rc = o_nodes + 8;
    let o_rules = o_rc + 1;
    let o_dim = o_rules + 3 * rl;
    let o_re = o_dim + 1;
    let o_im = o_re + d;
    let o_tl = o_im + d;
    let o_th = o_tl + 1;
    if i == 0 {
        word_of(e.system_temperature)
    } else if i == 1 {
        word_of(e.adrenaline)
    } else if i == 2 {
        word_of(e.frustration)
    } else if i == 3 {
        word_of(e.velocity_trust)
    } else if i == 4 {
        word_of(e.morale)
    } else if i == 5 {
        word_of(e.patience)
    } else if i == 6 {
        word_of(e.exploration_beta)
    } else if i == 7 {
        word_of(e.horizon.glutamate_buffer)
    } else if i < o_mom {
        word_of(e.fatigue_map@[i - o_fat])
    } else if i < o_grav {
        word_of(e.action_momentum@[i - o_mom])
    } else if i < o_ihc {
        word_of(e.mwso.gravity_field@[i - o_grav])
    } else if i == o_ihc {
        ihl as u64
    } else if i < o_cc {
        e.input_history@[i - o_ih] as u64
    } else if i == o_cc {
        cl as u64
    } else if i < o_nc {
        e.category_sizes@[i - o_cat] as u64
    } else if i == o_nc {
        4u64
    } else if i < o_rc {
        let k = i - o_nodes;
        if k % 2 == 0 {
            word_of(e.nodes@[k / 2].state)
        } else {
            word_of(e.nodes@[k / 2].base_decay)
        }
    } else if i == o_rc {
        rl as u64
    } else if i < o_dim {
        let k = i - o_rules;
        let r = e.learned_rules@[k / 3];
        if k % 3 == 0 {
            r.0 as u64
        } else if k % 3 == 1 {
            r.1 as u64
        } else {
            r.2 as u64
        }
    } else if i == o_dim {
        d as u64
    } else if i < o_im {
        word_of(e.mwso.psi_real@[i - o_re])
    } else if i < o_tl {
        word_of(e.mwso.psi_imag@[i - o_im])
    } else if i == o_tl {
        (2 * d) as u64
    } else {
        word_of(e.mwso.theta@[i - o_th])
    }
}

/// The full payload of an engine.
pub open spec fn payload_words_spec(e: crate::singularity::Singularity) -> Seq<u64> {
    Seq::new(payload_len(e) as nat, |i: int| word_at_spec(e, i))
}

/// Parse a payload against the shape of the engine it is loaded into.
/// Trailing words are tolerated; a truncated or inconsistent payload is
/// rejected.  A stored substrate of a different dimension is skipped, not
/// rejected.
pub open spec fn parse_guards_ok(ws: Seq<u64>, n: int, d: int) -> bool {
    let o_ihc = 8 + 2 * n + d;
    &&& ws.len() >= o_ihc + 1
    &&& (ws[o_ihc] as int) <= 4
    &&& ws.len() >= o_ihc + 1 + (ws[o_ihc] as int) + 1
    &&& ({
        let o_cc = o_ihc + 1 + (ws[o_ihc] as int);
        &&& ws.len() >= o_cc + 1 + (ws[o_cc] as int) + 1
        &&& ({
            let o_nc = o_cc + 1 + (ws[o_cc] as int);
            &&& ws[o_nc] == 4
            &&& ws.len() >= o_nc + 9 + 1
            &&& ({
                let o_rc = o_nc + 9;
                &&& ws.len() >= o_rc + 1 + 3 * (ws[o_rc] as int) + 1
                &&& ({
                    let o_dim = o_rc + 1 + 3 * (ws[o_rc] as int);
                    (ws[o_dim] as int) == d ==> (ws.len() >= o_dim + 1 + 2 * d + 1 + 2 * d
                        && (ws[o_dim + 1 + 2 * d] as int) == 2 * d)
                })
            })
        })
    })
}

/// The values extracted from a payload that passed the guards.
pub open spec fn extract_snap(ws: Seq<u64>, n: int, d: int) -> SnapView {
    let o_ihc = 8 + 2 * n + d;
    let ihl = ws[o_ihc] as int;
    let o_cc = o_ihc + 1 + ihl;
    let cl = ws[o_cc] as int;
    let o_nc = o_cc + 1 + cl;
    let o_rc = o_nc + 9;
    let rl = ws[o_rc] as int;
    let o_rules = o_rc + 1;
    let o_dim = o_rules + 3 * rl;
    let fdim = ws[o_dim] as int;
    SnapView {
        temp: fx_at(ws, 0),
        adrenaline: fx_at(ws, 1),
        frustration: fx_at(ws, 2),
        velocity_trust: fx_at(ws, 3),
        morale: fx_at(ws, 4),
        patience: fx_at(ws, 5),
        beta: fx_at(ws, 6),
        buffer: fx_at(ws, 7),
        fatigue: Seq::new(n as nat, |i: int| fx_at(ws, 8 + i)),
        momentum: Seq::new(n as nat, |i: int| fx_at(ws, 8 + n + i)),
        gravity: Seq::new(d as nat, |i: int| fx_at(ws, 8 + 2 * n + i)),
        input_history: Seq::new(ihl as nat, |i: int| usize_of_word(ws[o_ihc + 1 + i])),
        node_states: Seq::new(4nat, |i: int| fx_at(ws, o_nc + 1 + 2 * i)),
        node_decays: Seq::new(4nat, |i: int| fx_at(ws, o_nc + 1 + 2 * i + 1)),
        rules: Seq::new(
            rl as nat,
            |i: int| (
                usize_of_word(ws[o_rules + 3 * i]),
                usize_of_word(ws[o_rules + 3 * i + 1]),
                usize_of_word(ws[o_rules + 3 * i + 2]),
            ),
        ),
        wave: if fdim == d {
            Some(
                (
                    Seq::new(d as nat, |i: int| fx_at(ws, o_dim + 1 + i)),
                    Seq::new(d as nat, |i: int| fx_at(ws, o_dim + 1 + d + i)),
                    Seq::new((2 * d) as nat, |i: int| fx_at(ws, o_dim + 2 + 2 * d + i)),
                ),
            )
        } else {
            None
        },
    }
}

pub open spec fn parse_words_spec(ws: Seq<u64>, n: int, d: int) -> Option<SnapView> {
    if parse_guards_ok(ws, n, d) {
        Some(extract_snap(ws, n, d))
    } else {
        None
    }
}

/// The snapshot values an engine persists.
pub open spec fn snap_view_of(e: crate::singularity::Singularity) -> SnapView {
    SnapView {
        temp: e.system_temperature,
        adrenaline: e.adrenaline,
        frustration: e.frustration,
        velocity_trust: e.velocity_trust,
        morale: e.morale,
        patience: e.patience,
        beta: e.exploration_beta,
        buffer: e.horizon.glutamate_buffer,
        fatigue: e.fatigue_map@,
        momentum: e.action_momentum@,
        gravity: e.mwso.gravity_field@,
        input_history: e.input_history@,
        node_states: crate::singularity::states_view(e.nodes@),
        node_decays: crate::singularity::decays_view(e.nodes@),
        rules: e.learned_rules@,
        wave: Some((e.mwso.psi_real@, e.mwso.psi_imag@, e.mwso.theta@)),
    }
}

/// A parsed snapshot, before it is applied to an engine.
pub struct SnapshotData {
    pub temp: i64,
    pub adrenaline: i64,
    pub frustration: i64,
    pub velocity_trust: i64,
    pub morale: i64,
    pub patience: i64,
    pub beta: i64,
    pub buffer: i64,
    pub fatigue: Vec<i64>,
    pub momentum: Vec<i64>,
    pub gravity: Vec<i64>,
    pub input_history: Vec<usize>,
    pub node_states: Vec<i64>,
    pub node_decays: Vec<i64>,
    pub rules: Vec<(usize, usize, usize)>,
    pub wave: Option<(Vec<i64>, Vec<i64>, Vec<i64>)>,
}

/// The plain values of a parsed snapshot.
pub open spec fn snapdata_view(s: SnapshotData) -> SnapView {
    SnapView {
        temp: s.temp,
        adrenaline: s.adrenaline,
        frustration: s.frustration,
        velocity_trust: s.velocity_trust,
        morale: s.morale,
        patience: s.patience,
        beta: s.beta,
        buffer: s.buffer,
        fatigue: s.fatigue@,
        momentum: s.momentum@,
        gravity: s.gravity@,
        input_history: s.input_history@,
        node_states: s.node_states@,
        node_decays: s.node_decays@,
        rules: s.rules@,
        wave: match s.wave {
            Some(w) => Some((w.0@, w.1@, w.2@)),
            None => None,
        },
    }
}

/// Append the word images of a fixed-point vector.
fn push_fx_words(ws: &mut Vec<u64>, v: &Vec<i64>)
    ensures
        final(ws)@.len() == old(ws)@.len() + v@.len(),
        forall|i: int| 0 <= i < old(ws)@.len() ==> final(ws)@[i] == old(ws)@[i],
        forall|j: int|
            0 <= j < v@.len() ==> final(ws)@[old(ws)@.len() + j] == word_of(v@[j]),
{
    let n = v.len();
    let mut i: usize = 0;
    while i < n
        invariant
            i <= n,
            n == v@.len(),
            ws@.len() == old(ws)@.len() + i,
            forall|k: int| 0 <= k < old(ws)@.len() ==> ws@[k] == old(ws)@[k],
            forall|j: int| 0 <= j < i ==> ws@[old(ws)@.len() + j] == word_of(v@[j]),
        decreases n - i,
    {
        ws.push(word_of_fx(v[i]));
        i = i + 1;
    }
}

/// Read `count` fixed-point values starting at word `base`.
fn read_fx_words(ws: &Vec<u64>, base: usize, count: usize) -> (r: Vec<i64>)
    requires
        base + count <= ws@.len(),
    ensures
        r@.len() == count,
        forall|i: int| 0 <= i < count ==> r@[i] == fx_at(ws@, base + i),
{
    let wlen: usize = ws.len();
    let mut out: Vec<i64> = Vec::new();
    let mut i: usize = 0;
    while i < count
        invariant
            i <= count,
            base + count <= wlen,
            wlen == ws@.len(),
            out@.len() == i,
            forall|k: int| 0 <= k < i ==> out@[k] == fx_at(ws@, base + k),
        decreases count - i,
    {
        out.push(fx_of_word(ws[base + i]));
        i = i + 1;
    }
    out
}

impl crate::singularity::Singularity {
    /// Serialise the engine into the snapshot byte format.
    #[verifier::rlimit(100)]
    pub fn save_to_bytes(&self) -> (r: Vec<u8>)
        requires
            self.wf(),
        ensures
            r@ == magic_bytes() + u32_le(SNAPSHOT_VERSION as int) + u32_le(self.state_size as int)
                + words_bytes(payload_words_spec(*self), payload_len(*self)),
    {
        let mut ws: Vec<u64> = Vec::new();
        ws.push(word_of_fx(self.system_temperature));
        ws.push(word_of_fx(self.adrenaline));
        ws.push(word_of_fx(self.frustration));
        ws.push(word_of_fx(self.velocity_trust));
        ws.push(word_of_fx(self.morale));
        ws.push(word_of_fx(self.patience));
        ws.push(word_of_fx(self.exploration_beta));
        ws.push(word_of_fx(self.horizon.glutamate_buffer));
        proof {
            assert(forall|k: int| 0 <= k < ws@.len() ==> #[trigger] ws@[k] == word_at_spec(*self, k));
        }

        push_fx_words(&mut ws, &self.fatigue_map);
        proof {
            assert(forall|k: int| 0 <= k < ws@.len() ==> #[trigger] ws@[k] == word_at_spec(*self, k));
        }
        push_fx_words(&mut ws, &self.action_momentum);
        proof {
            assert(forall|k: int| 0 <= k < ws@.len() ==> #[trigger] ws@[k] == word_at_spec(*self, k));
        }
        push_fx_words(&mut ws, &self.mwso.gravity_field);
        proof {
            assert(forall|k: int| 0 <= k < ws@.len() ==> #[trigger] ws@[k] == word_at_spec(*self, k));
        }

        ws.push(self.input_history.len() as u64);
        let ihl = self.input_history.len();
        let ghost pre_ih = ws@;
        proof {
            assert(forall|k: int|
                0 <= k < pre_ih.len() ==> #[trigger] pre_ih[k] == word_at_spec(*self, k));
        }
        let mut i: usize = 0;
        while i < ihl
            invariant
                i <= ihl,
                ihl == self.input_history@.len(),
                ws@.len() == pre_ih.len() + i,
                forall|k: int| 0 <= k < pre_ih.len() ==> #[trigger] ws@[k] == pre_ih[k],
                forall|j: int|
                    0 <= j < i ==> #[trigger] ws@[pre_ih.len() + j] == (self.input_history@[j] as u64),
            decreases ihl - i,
        {
            ws.push(self.input_history[i] as u64);
            i = i + 1;
        }

        proof {
            let ghost base = pre_ih.len() as int;
            assert forall|k: int| 0 <= k < ws@.len() implies #[trigger] ws@[k] == word_at_spec(
                *self,
                k,
            ) by {
                if k >= base {
                    assert(ws@[base + (k - base)] == (self.input_history@[k - base] as u64));
                }
            }
        }
        ws.push(self.category_sizes.len() as u64);
        let cl = self.category_sizes.len();
        let ghost pre_cat = ws@;
        proof {
            assert(forall|k: int|
                0 <= k < pre_cat.len() ==> #[trigger] pre_cat[k] == word_at_spec(*self, k));
        }
        let mut c: usize = 0;
        while c < cl
            invariant
                c <= cl,
                cl == self.category_sizes@.len(),
                ws@.len() == pre_cat.len() + c,
                forall|k: int| 0 <= k < pre_cat.len() ==> #[trigger] ws@[k] == pre_cat[k],
                forall|j: int|
                    0 <= j < c ==> #[trigger] ws@[pre_cat.len() + j] == (self.category_sizes@[j] as u64),
            decreases cl - c,
        {
            ws.push(self.category_sizes[c] as u64);
            c = c + 1;
        }

        proof {
            let ghost base = pre_cat.len() as int;
            assert forall|k: int| 0 <= k < ws@.len() implies #[trigger] ws@[k] == word_at_spec(
                *self,
                k,
            ) by {
                if k >= base {
                    assert(ws@[base + (k - base)] == (self.category_sizes@[k - base] as u64));
                }
            }
        }
        ws.push(4u64);
        let mut ni: usize = 0;
        let ghost pre_nodes = ws@;
        proof {
            assert(forall|k: int|
                0 <= k < pre_nodes.len() ==> #[trigger] pre_nodes[k] == word_at_spec(*self, k));
        }
        while ni < 4
            invariant
                ni <= 4,
                self.nodes@.len() == 4,
                ws@.len() == pre_nodes.len() + 2 * ni,
                forall|k: int| 0 <= k < pre_nodes.len() ==> #[trigger] ws@[k] == pre_nodes[k],
                forall|j: int|
                    0 <= j < 2 * ni ==> #[trigger] ws@[pre_nodes.len() + j] == (if j % 2 == 0 {
                        word_of(self.nodes@[j / 2].state)
                    } else {
                        word_of(self.nodes@[j / 2].base_decay)
                    }),
            decreases 4 - ni,
        {
            ws.push(word_of_fx(self.nodes[ni].state));
            ws.push(word_of_fx(self.nodes[ni].base_decay));
            ni = ni + 1;
        }

        proof {
            let ghost base = pre_nodes.len() as int;
            assert forall|k: int| 0 <= k < ws@.len() implies #[trigger] ws@[k] == word_at_spec(
                *self,
                k,
            ) by {
                if k >= base {
                    assert(ws@[base + (k - base)] == (if (k - base) % 2 == 0 {
                        word_of(self.nodes@[(k - base) / 2].state)
                    } else {
                        word_of(self.nodes@[(k - base) / 2].base_decay)
                    }));
                }
            }
        }
        ws.push(self.learned_rules.len() as u64);
        let rl = self.learned_rules.len();
        let ghost pre_rules = ws@;
        proof {
            assert(forall|k: int|
                0 <= k < pre_rules.len() ==> #[trigger] pre_rules[k] == word_at_spec(*self, k));
        }
        let mut ri: usize = 0;
        while ri < rl
            invariant
                ri <= rl,
                rl == self.learned_rules@.len(),
                ws@.len() == pre_rules.len() + 3 * ri,
                forall|k: int| 0 <= k < pre_rules.len() ==> #[trigger] ws@[k] == pre_rules[k],
                forall|j: int|
                    0 <= j < 3 * ri ==> #[trigger] ws@[pre_rules.len() + j] == ({
                        let r = self.learned_rules@[j / 3];
                        if j % 3 == 0 {
                            r.0 as u64
                        } else if j % 3 == 1 {
                            r.1 as u64
                        } else {
                            r.2 as u64
                        }
                    }),
            decreases rl - ri,
        {
            ws.push(self.learned_rules[ri].0 as u64);
            ws.push(self.learned_rules[ri].1 as u64);
            ws.push(self.learned_rules[ri].2 as u64);
            ri = ri + 1;
        }

        proof {
            let ghost base = pre_rules.len() as int;
            assert forall|k: int| 0 <= k < ws@.len() implies #[trigger] ws@[k] == word_at_spec(
                *self,
                k,
            ) by {
                if k >= base {
                    assert(ws@[base + (k - base)] == ({
                        let r = self.learned_rules@[(k - base) / 3];
                        if (k - base) % 3 == 0 {
                            r.0 as u64
                        } else if (k - base) % 3 == 1 {
                            r.1 as u64
                        } else {
                            r.2 as u64
                        }
                    }));
                }
            }
        }
        ws.push(self.mwso.dim as u64);
        push_fx_words(&mut ws, &self.mwso.psi_real);
        proof {
            assert(forall|k: int| 0 <= k < ws@.len() ==> #[trigger] ws@[k] == word_at_spec(*self, k));
        }
        push_fx_words(&mut ws, &self.mwso.psi_imag);
        ws.push((2 * self.mwso.dim) as u64);
        proof {
            assert(forall|k: int| 0 <= k < ws@.len() ==> #[trigger] ws@[k] == word_at_spec(*self, k));
        }
        push_fx_words(&mut ws, &self.mwso.theta);
        proof {
            assert(forall|k: int| 0 <= k < ws@.len() ==> #[trigger] ws@[k] == word_at_spec(*self, k));
        }

        proof {
            assert(ws@ =~= payload_words_spec(*self));
        }

        let mut out: Vec<u8> = Vec::new();
        out.push(68);
        out.push(83);
        out.push(89);
        out.push(77);
        proof {
            assert(out@ =~= magic_bytes());
        }
        push_u32(&mut out, SNAPSHOT_VERSION);
        push_u32(&mut out, self.state_size as u32);

        let ghost header = out@;
        let wn = ws.len();
        let mut w: usize = 0;
        while w < wn
            invariant
                w <= wn,
                wn == ws@.len(),
                out@ == header + words_bytes(ws@, w as int),
            decreases wn - w,
        {
            push_u64(&mut out, ws[w]);
            w = w + 1;
        }
        out
    }
}

/// Read `count` clamped index values starting at word `base`.
fn read_usize_words(ws: &Vec<u64>, base: usize, count: usize) -> (r: Vec<usize>)
    requires
        base + count <= ws@.len(),
    ensures
        r@.len() == count,
        forall|i: int| 0 <= i < count ==> r@[i] == usize_of_word(ws@[base + i]),
{
    let wlen: usize = ws.len();
    let mut out: Vec<usize> = Vec::new();
    let mut i: usize = 0;
    while i < count
        invariant
            i <= count,
            base + count <= wlen,
            wlen == ws@.len(),
            out@.len() == i,
            forall|k: int| 0 <= k < i ==> out@[k] == usize_of_word(ws@[base + k]),
        decreases count - i,
    {
        let w = ws[base + i];
        if w > usize::MAX as u64 {
            out.push(usize::MAX);
        } else {
            out.push(w as usize);
        }
        i = i + 1;
    }
    out
}

/// Clamp a word into the index range.
fn word_to_usize(w: u64) -> (r: usize)
    ensures
        r == usize_of_word(w),
{
    if w > usize::MAX as u64 {
        usize::MAX
    } else {
        w as usize
    }
}

/// Parse a snapshot payload against the engine shape (`n` actions, `d`
/// substrate dimensions).
#[verifier::rlimit(100)]
fn parse_payload(ws: &Vec<u64>, n: usize, d: usize) -> (r: Option<SnapshotData>)
    requires
        n <= 4096,
        d <= 0x100000,
        ws@.len() <= 0x4000000000000000,
    ensures
        ({
            let p = parse_words_spec(ws@, n as int, d as int);
            match r {
                None => p is None,
                Some(sd) => p == Some(snapdata_view(sd)),
            }
        }),
{
    let wlen: usize = ws.len();
    let o_ihc: usize = 8 + 2 * n + d;
    if wlen < o_ihc + 1 {
        return None;
    }
    let ihl_w = ws[o_ihc];
    if ihl_w > 4 {
        return None;
    }
    let ihl = ihl_w as usize;
    if (wlen as u128) < (o_ihc as u128) + 1 + (ihl as u128) + 1 {
        return None;
    }
    let o_cc: usize = o_ihc + 1 + ihl;
    let cl_w = ws[o_cc];
    if (wlen as u128) < (o_cc as u128) + 1 + (cl_w as u128) + 1 {
        return None;
    }
    let cl = cl_w as usize;
    let o_nc: usize = o_cc + 1 + cl;
    if ws[o_nc] != 4 {
        return None;
    }
    if (wlen as u128) < (o_nc as u128) + 9 + 1 {
        return None;
    }
    let o_rc: usize = o_nc + 9;
    let rl_w = ws[o_rc];
    if (wlen as u128) < (o_rc as u128) + 1 + 3 * (rl_w as u128) + 1 {
        return None;
    }
    let rl = rl_w as usize;
    let o_rules: usize = o_rc + 1;
    let o_dim: usize = o_rules + 3 * rl;
    let fdim = ws[o_dim];

    let wave: Option<(Vec<i64>, Vec<i64>, Vec<i64>)> = if fdim == d as u64 {
        if (wlen as u128) < (o_dim as u128) + 1 + 2 * (d as u128) + 1 + 2 * (d as u128) {
            return None;
        }
        if ws[o_dim + 1 + 2 * d] != (2 * d) as u64 {
            return None;
        }
        let re = read_fx_words(ws, o_dim + 1, d);
        let im = read_fx_words(ws, o_dim + 1 + d, d);
        let th = read_fx_words(ws, o_dim + 2 + 2 * d, 2 * d);
        Some((re, im, th))
    } else {
        None
    };

    let fatigue = read_fx_words(ws, 8, n);
    let momentum = read_fx_words(ws, 8 + n, n);
    let gravity = read_fx_words(ws, 8 + 2 * n, d);
    let input_history = read_usize_words(ws, o_ihc + 1, ihl);

    let mut node_states: Vec<i64> = Vec::new();
    let mut node_decays: Vec<i64> = Vec::new();
    let mut ni: usize = 0;
    while ni < 4
        invariant
            ni <= 4,
            o_nc + 9 <= wlen,
            wlen == ws@.len(),
            node_states@.len() == ni,
            node_decays@.len() == ni,
            forall|k: int| 0 <= k < ni ==> node_states@[k] == fx_at(ws@, o_nc + 1 + 2 * k),
            forall|k: int| 0 <= k < ni ==> node_decays@[k] == fx_at(ws@, o_nc + 1 + 2 * k + 1),
        decreases 4 - ni,
    {
        node_states.push(fx_of_word(ws[o_nc + 1 + 2 * ni]));
        node_decays.push(fx_of_word(ws[o_nc + 1 + 2 * ni + 1]));
        ni = ni + 1;
    }

    let mut rules: Vec<(usize, usize, usize)> = Vec::new();
    let mut ri: usize = 0;
    while ri < rl
        invariant
            ri <= rl,
            o_rules + 3 * rl <= wlen,
            wlen == ws@.len(),
            o_rules == o_rc + 1,
            rules@.len() == ri,
            forall|k: int|
                0 <= k < ri ==> #[trigger] rules@[k] == (
                    usize_of_word(ws@[o_rules + 3 * k]),
                    usize_of_word(ws@[o_rules + 3 * k + 1]),
                    usize_of_word(ws@[o_rules + 3 * k + 2]),
                ),
        decreases rl - ri,
    {
        let a = word_to_usize(ws[o_rules + 3 * ri]);
        let b = word_to_usize(ws[o_rules + 3 * ri + 1]);
        let c = word_to_usize(ws[o_rules + 3 * ri + 2]);
        rules.push((a, b, c));
        ri = ri + 1;
    }

    let data = SnapshotData {
        temp: fx_of_word(ws[0]),
        adrenaline: fx_of_word(ws[1]),
        frustration: fx_of_word(ws[2]),
        velocity_trust: fx_of_word(ws[3]),
        morale: fx_of_word(ws[4]),
        patience: fx_of_word(ws[5]),
        beta: fx_of_word(ws[6]),
        buffer: fx_of_word(ws[7]),
        fatigue,
        momentum,
        gravity,
        input_history,
        node_states,
        node_decays,
        rules,
        wave,
    };
    proof {
        let p = parse_words_spec(ws@, n as int, d as int);
        assert(p is Some);
        let sv = p.unwrap();
        assert(snapdata_view(data).fatigue =~= sv.fatigue);
        assert(snapdata_view(data).momentum =~= sv.momentum);
        assert(snapdata_view(data).gravity =~= sv.gravity);
        assert(snapdata_view(data).input_history =~= sv.input_history);
        assert(snapdata_view(data).node_states =~= sv.node_states);
        assert(snapdata_view(data).node_decays =~= sv.node_decays);
        assert(snapdata_view(data).rules =~= sv.rules);
        if data.wave is Some {
            let w = data.wave.unwrap();
            assert(sv.wave is Some);
            assert(w.0@ =~= sv.wave.unwrap().0);
            assert(w.1@ =~= sv.wave.unwrap().1);
            assert(w.2@ =~= sv.wave.unwrap().2);
        } else {
            assert(sv.wave is None);
        }
    }
    Some(data)
}

impl crate::singularity::Singularity {
    /// Restore the engine from snapshot bytes.  On any error the engine is
    /// left exactly in its pre-load state; a snapshot whose stored state
    /// size differs from the engine's is always rejected.
    #[verifier::rlimit(100)]
    pub fn load_from_bytes(&mut self, bytes: &Vec<u8>) -> (r: Result<(), SnapshotError>)
        requires
            old(self).wf(),
        ensures
            final(self).wf(),
            r is Err ==> *final(self) == *old(self),
            ({
                let b = bytes@;
                let header_ok = b.len() >= 12 && b.subrange(0, 4) == magic_bytes() && le_u32_at(b, 4)
                    == SNAPSHOT_VERSION;
                let state_ok = le_u32_at(b, 8) == old(self).state_size;
                let ws = Seq::new(((b.len() - 12) / 8) as nat, |k: int| le_u64_at(b, 12 + 8 * k) as u64);
                let parsed = parse_words_spec(ws, old(self).action_size as int, old(self).mwso.dim as int);
                &&& (!header_ok ==> r == Err::<(), SnapshotError>(SnapshotError::MalformedSnapshot))
                &&& (header_ok && !state_ok ==> r == Err::<(), SnapshotError>(
                    SnapshotError::IncompatibleDimensions,
                ))
                &&& (header_ok && state_ok && parsed is None ==> r == Err::<(), SnapshotError>(
                    SnapshotError::MalformedSnapshot,
                ))
                &&& (header_ok && state_ok && parsed is Some ==> {
                    let s = parsed.unwrap();
                    &&& r == Ok::<(), SnapshotError>(())
                    &&& final(self).system_temperature == s.temp
                    &&& final(self).adrenaline == s.adrenaline
                    &&& final(self).frustration == s.frustration
                    &&& final(self).velocity_trust == s.velocity_trust
                    &&& final(self).morale == s.morale
                    &&& final(self).patience == s.patience
                    &&& final(self).exploration_beta == s.beta
                    &&& final(self).horizon.glutamate_buffer == s.buffer
                    &&& final(self).fatigue_map@ == s.fatigue
                    &&& final(self).action_momentum@ == s.momentum
                    &&& final(self).mwso.gravity_field@ == s.gravity
                    &&& final(self).input_history@ == s.input_history
                    &&& final(self).learned_rules@ == s.rules
                    &&& (match s.wave {
                        Some(w) => {
                            &&& final(self).mwso.psi_real@ == w.0
                            &&& final(self).mwso.psi_imag@ == w.1
                            &&& final(self).mwso.theta@ == w.2
                        },
                        None => {
                            &&& final(self).mwso.psi_real == old(self).mwso.psi_real
                            &&& final(self).mwso.psi_imag == old(self).mwso.psi_imag
                            &&& final(self).mwso.theta == old(self).mwso.theta
                        },
                    })
                    &&& ({
                        let rv = crate::singularity::reshape_view_spec(
                            s.node_states,
                            crate::singularity::syns_view(old(self).nodes@),
                            s.adrenaline,
                            s.temp,
                            crate::fx::fx_min_spec(
                                crate::fx::fx_div_spec(s.buffer, 196608),
                                crate::fx::FX_ONE,
                            ),
                            s.fatigue,
                        );
                        &&& crate::singularity::states_view(final(self).nodes@) == rv.0
                        &&& crate::singularity::syns_view(final(self).nodes@) == rv.1
                    })
                    &&& crate::singularity::decays_view(final(self).nodes@) == s.node_decays
                    &&& final(self).last_topology_update_temp == s.temp
                    &&& final(self).mwso.frequencies == old(self).mwso.frequencies
                    &&& final(self).mwso.entanglements == old(self).mwso.entanglements
                    &&& final(self).mwso.memory_psi_real == old(self).mwso.memory_psi_real
                    &&& final(self).mwso.memory_psi_imag == old(self).mwso.memory_psi_imag
                    &&& final(self).mwso.dim == old(self).mwso.dim
                    &&& final(self).mwso.noise == old(self).mwso.noise
                    &&& final(self).bootstrapper == old(self).bootstrapper
                    &&& final(self).active_conditions == old(self).active_conditions
                    &&& final(self).category_sizes == old(self).category_sizes
                    &&& final(self).action_size == old(self).action_size
                    &&& final(self).state_size == old(self).state_size
                    &&& final(self).last_actions == old(self).last_actions
                    &&& final(self).last_state_idx == old(self).last_state_idx
                    &&& final(self).history == old(self).history
                    &&& final(self).max_history == old(self).max_history
                    &&& final(self).penalty_matrix == old(self).penalty_matrix
                })
            }),
    {
        let blen = bytes.len();
        if blen < 12 {
            return Err(SnapshotError::MalformedSnapshot);
        }
        if bytes[0] != 68 || bytes[1] != 83 || bytes[2] != 89 || bytes[3] != 77 {
            proof {
                assert(bytes@.subrange(0, 4) != magic_bytes());
            }
            return Err(SnapshotError::MalformedSnapshot);
        }
        proof {
            assert(bytes@.subrange(0, 4) =~= magic_bytes());
        }
        let version = read_u32(bytes, 4);
        if version != SNAPSHOT_VERSION {
            return Err(SnapshotError::MalformedSnapshot);
        }
        let stored_state = read_u32(bytes, 8);
        if stored_state as u64 != self.state_size as u64 {
            return Err(SnapshotError::IncompatibleDimensions);
        }

        let wcount = (blen - 12) / 8;
        let mut ws: Vec<u64> = Vec::new();
        let mut k: usize = 0;
        while k < wcount
            invariant
                k <= wcount,
                wcount == (bytes@.len() - 12) / 8,
                blen == bytes@.len(),
                ws@.len() == k,
                forall|i: int| 0 <= i < k ==> ws@[i] as int == le_u64_at(bytes@, 12 + 8 * i),
            decreases wcount - k,
        {
            proof {
                assert(12 + 8 * (k as int) + 8 <= bytes@.len()) by (nonlinear_arith)
                    requires
                        0 <= k < (bytes@.len() - 12) / 8,
                ;
            }
            ws.push(read_u64(bytes, 12 + 8 * k));
            k = k + 1;
        }
        proof {
            assert(ws@ =~= Seq::new(
                ((bytes@.len() - 12) / 8) as nat,
                |i: int| le_u64_at(bytes@, 12 + 8 * i) as u64,
            ));
        }

        let parsed = parse_payload(&ws, self.action_size, self.mwso.dim);
        let data = match parsed {
            None => {
                return Err(SnapshotError::MalformedSnapshot);
            },
            Some(d) => d,
        };

        let SnapshotData {
            temp,
            adrenaline,
            frustration,
            velocity_trust,
            morale,
            patience,
            beta,
            buffer,
            fatigue,
            momentum,
            gravity,
            input_history,
            node_states,
            node_decays,
            rules,
            wave,
        } = data;

        self.system_temperature = temp;
        self.adrenaline = adrenaline;
        self.frustration = frustration;
        self.velocity_trust = velocity_trust;
        self.morale = morale;
        self.patience = patience;
        self.exploration_beta = beta;
        self.horizon.glutamate_buffer = buffer;
        self.fatigue_map = fatigue;
        self.action_momentum = momentum;
        self.mwso.gravity_field = gravity;
        self.input_history = input_history;
        self.learned_rules = rules;

        let ghost pre_nodes_engine = *self;
        let mut ni: usize = 0;
        while ni < 4
            invariant
                ni <= 4,
                self.nodes@.len() == 4,
                node_states@.len() == 4,
                node_decays@.len() == 4,
                forall|k2: int|
                    0 <= k2 < ni ==> (#[trigger] self.nodes@[k2]).state == node_states@[k2]
                        && self.nodes@[k2].base_decay == node_decays@[k2],
                forall|k2: int|
                    ni <= k2 < 4 ==> (#[trigger] self.nodes@[k2]) == pre_nodes_engine.nodes@[k2],
                forall|k2: int|
                    0 <= k2 < ni ==> (#[trigger] self.nodes@[k2]).synapses
                        == pre_nodes_engine.nodes@[k2].synapses,
                *self == (crate::singularity::Singularity { nodes: self.nodes, ..pre_nodes_engine }),
            decreases 4 - ni,
        {
            self.nodes[ni].state = node_states[ni];
            self.nodes[ni].base_decay = node_decays[ni];
            ni = ni + 1;
        }

        match wave {
            Some(w) => {
                let (re, im, th) = w;
                self.mwso.psi_real = re;
                self.mwso.psi_imag = im;
                self.mwso.theta = th;
            },
            None => {},
        }

        self.last_topology_update_temp = crate::singularity::ENGINE_TOPOLOGY_INIT;
        self.reshape_topology();
        Ok(())
    }
}

/// The count words of a payload are the engine's collection lengths.
#[verifier::rlimit(100)]
proof fn lemma_payload_counts(e: crate::singularity::Singularity)
    requires
        e.wf(),
    ensures
        ({
            let ws = payload_words_spec(e);
            let n = e.action_size as int;
            let d = e.mwso.dim as int;
            let ihl = e.input_history@.len() as int;
            let cl = e.category_sizes@.len() as int;
            let rl = e.learned_rules@.len() as int;
            let o_ihc = 8 + 2 * n + d;
            let o_cc = o_ihc + 1 + ihl;
            let o_nc = o_cc + 1 + cl;
            let o_rc = o_nc + 9;
            let o_dim = o_rc + 1 + 3 * rl;
            &&& ws.len() == payload_len(e)
            &&& (ws[o_ihc] as int) == ihl
            &&& (ws[o_cc] as int) == cl
            &&& (ws[o_nc] as int) == 4
            &&& (ws[o_rc] as int) == rl
            &&& (ws[o_dim] as int) == d
            &&& (ws[o_dim + 1 + 2 * d] as int) == 2 * d
            &&& ihl <= 4
        }),
{
    let ws = payload_words_spec(e);
    let n = e.action_size as int;
    let d = e.mwso.dim as int;
    let ihl = e.input_history@.len() as int;
    let cl = e.category_sizes@.len() as int;
    let rl = e.learned_rules@.len() as int;
    let o_ihc = 8 + 2 * n + d;
    let o_cc = o_ihc + 1 + ihl;
    let o_nc = o_cc + 1 + cl;
    let o_rc = o_nc + 9;
    let o_dim = o_rc + 1 + 3 * rl;
    vstd::std_specs::vec::axiom_spec_len(&e.input_history);
    vstd::std_specs::vec::axiom_spec_len(&e.category_sizes);
    vstd::std_specs::vec::axiom_spec_len(&e.learned_rules);
    assert(ws[o_ihc] == ihl as u64);
    assert(ws[o_cc] == cl as u64);
    assert(ws[o_nc] == 4u64);
    assert(ws[o_rc] == rl as u64);
    assert(ws[o_dim] == d as u64);
    assert(ws[o_dim + 1 + 2 * d] == (2 * d) as u64);
}

/// The payload of a well-formed engine passes every parse guard.
#[verifier::rlimit(100)]
proof fn lemma_payload_guards(e: crate::singularity::Singularity)
    requires
        e.wf(),
    ensures
        parse_guards_ok(payload_words_spec(e), e.action_size as int, e.mwso.dim as int),
{
    lemma_payload_counts(e);
}

/// The scalar block and the per-action and per-dimension fields parse back
/// to the engine's values.
#[verifier::rlimit(100)]
proof fn lemma_extract_arrays(e: crate::singularity::Singularity)
    requires
        e.wf(),
    ensures
        ({
            let sv = extract_snap(payload_words_spec(e), e.action_size as int, e.mwso.dim as int);
            &&& sv.temp == e.system_temperature
            &&& sv.adrenaline == e.adrenaline
            &&& sv.frustration == e.frustration
            &&& sv.velocity_trust == e.velocity_trust
            &&& sv.morale == e.morale
            &&& sv.patience == e.patience
            &&& sv.beta == e.exploration_beta
            &&& sv.buffer == e.horizon.glutamate_buffer
            &&& sv.fatigue == e.fatigue_map@
            &&& sv.momentum == e.action_momentum@
            &&& sv.gravity == e.mwso.gravity_field@
            &&& sv.input_history == e.input_history@
        }),
{
    let ws = payload_words_spec(e);
    let n = e.action_size as int;
    let d = e.mwso.dim as int;
    let sv = extract_snap(ws, n, d);
    lemma_word_roundtrip(e.system_temperature as int);
    lemma_word_roundtrip(e.adrenaline as int);
    lemma_word_roundtrip(e.frustration as int);
    lemma_word_roundtrip(e.velocity_trust as int);
    lemma_word_roundtrip(e.morale as int);
    lemma_word_roundtrip(e.patience as int);
    lemma_word_roundtrip(e.exploration_beta as int);
    lemma_word_roundtrip(e.horizon.glutamate_buffer as int);
    assert forall|i: int| 0 <= i < n implies #[trigger] sv.fatigue[i] == e.fatigue_map@[i] by {
        lemma_word_roundtrip(e.fatigue_map@[i] as int);
    }
    assert(sv.fatigue =~= e.fatigue_map@);
    assert forall|i: int| 0 <= i < n implies #[trigger] sv.momentum[i] == e.action_momentum@[i] by {
        lemma_word_roundtrip(e.action_momentum@[i] as int);
    }
    assert(sv.momentum =~= e.action_momentum@);
    assert forall|i: int| 0 <= i < d implies #[trigger] sv.gravity[i] == e.mwso.gravity_field@[i] by {
        lemma_word_roundtrip(e.mwso.gravity_field@[i] as int);
    }
    assert(sv.gravity =~= e.mwso.gravity_field@);
    assert(sv.input_history =~= e.input_history@);
}

/// The node block and the learned rules parse back to the engine's values.
#[verifier::rlimit(100)]
proof fn lemma_extract_nodes_rules(e: crate::singularity::Singularity)
    requires
        e.wf(),
    ensures
        ({
            let sv = extract_snap(payload_words_spec(e), e.action_size as int, e.mwso.dim as int);
            &&& sv.node_states == crate::singularity::states_view(e.nodes@)
            &&& sv.node_decays == crate::singularity::decays_view(e.nodes@)
            &&& sv.rules == e.learned_rules@
        }),
{
    lemma_payload_counts(e);
    let ws = payload_words_spec(e);
    let n = e.action_size as int;
    let d = e.mwso.dim as int;
    let sv = extract_snap(ws, n, d);
    assert forall|i: int| 0 <= i < 4 implies #[trigger] sv.node_states[i]
        == crate::singularity::states_view(e.nodes@)[i] by {
        lemma_word_roundtrip(e.nodes@[i].state as int);
    }
    assert(sv.node_states =~= crate::singularity::states_view(e.nodes@));
    assert forall|i: int| 0 <= i < 4 implies #[trigger] sv.node_decays[i]
        == crate::singularity::decays_view(e.nodes@)[i] by {
        lemma_word_roundtrip(e.nodes@[i].base_decay as int);
    }
    assert(sv.node_decays =~= crate::singularity::decays_view(e.nodes@));
    assert(sv.rules =~= e.learned_rules@);
}

/// The substrate block parses back to the engine's wave.
#[verifier::rlimit(100)]
proof fn lemma_extract_wave(e: crate::singularity::Singularity)
    requires
        e.wf(),
    ensures
        ({
            let sv = extract_snap(payload_words_spec(e), e.action_size as int, e.mwso.dim as int);
            sv.wave == Some((e.mwso.psi_real@, e.mwso.psi_imag@, e.mwso.theta@))
        }),
{
    lemma_payload_counts(e);
    let ws = payload_words_spec(e);
    let n = e.action_size as int;
    let d = e.mwso.dim as int;
    let sv = extract_snap(ws, n, d);
    assert(sv.wave is Some);
    let w = sv.wave.unwrap();
    assert forall|i: int| 0 <= i < d implies #[trigger] w.0[i] == e.mwso.psi_real@[i] by {
        lemma_word_roundtrip(e.mwso.psi_real@[i] as int);
    }
    assert(w.0 =~= e.mwso.psi_real@);
    assert forall|i: int| 0 <= i < d implies #[trigger] w.1[i] == e.mwso.psi_imag@[i] by {
        lemma_word_roundtrip(e.mwso.psi_imag@[i] as int);
    }
    assert(w.1 =~= e.mwso.psi_imag@);
    assert forall|i: int| 0 <= i < 2 * d implies #[trigger] w.2[i] == e.mwso.theta@[i] by {
        lemma_word_roundtrip(e.mwso.theta@[i] as int);
    }
    assert(w.2 =~= e.mwso.theta@);
}

/// Round-trip law, payload half: a well-formed engine's payload parses
/// back, against the same shape, to exactly the persisted values.
pub proof fn lemma_payload_roundtrip(e: crate::singularity::Singularity)
    requires
        e.wf(),
    ensures
        parse_words_spec(payload_words_spec(e), e.action_size as int, e.mwso.dim as int) == Some(
            snap_view_of(e),
        ),
{
    lemma_payload_guards(e);
    lemma_extract_arrays(e);
    lemma_extract_nodes_rules(e);
    lemma_extract_wave(e);
    let sv = extract_snap(payload_words_spec(e), e.action_size as int, e.mwso.dim as int);
    assert(sv =~~= snap_view_of(e));
}

/// Round-trip law, byte half: the bytes written by a save carry a
/// well-formed header with the engine's state size, and the payload words
/// extracted from them are exactly the engine's payload.
#[verifier::rlimit(100)]
pub proof fn lemma_saved_bytes_shape(e: crate::singularity::Singularity)
    requires
        e.wf(),
    ensures
        ({
            let b = magic_bytes() + u32_le(SNAPSHOT_VERSION as int) + u32_le(e.state_size as int)
                + words_bytes(payload_words_spec(e), payload_len(e));
            let ws = Seq::new(((b.len() - 12) / 8) as nat, |k: int| le_u64_at(b, 12 + 8 * k) as u64);
            &&& b.len() >= 12
            &&& b.subrange(0, 4) == magic_bytes()
            &&& le_u32_at(b, 4) == SNAPSHOT_VERSION
            &&& le_u32_at(b, 8) == e.state_size
            &&& ws == payload_words_spec(e)
        }),
{
    let payload = payload_words_spec(e);
    let plen = payload_len(e);
    let b = magic_bytes() + u32_le(SNAPSHOT_VERSION as int) + u32_le(e.state_size as int)
        + words_bytes(payload, plen);
    lemma_words_bytes_len(payload, plen);
    assert(b.len() == 12 + 8 * plen);
    assert(b.subrange(0, 4) =~= magic_bytes());
    lemma_u32_le_roundtrip(SNAPSHOT_VERSION as int);
    assert(le_u32_at(b, 4) == le_u32_at(u32_le(SNAPSHOT_VERSION as int), 0));
    lemma_u32_le_roundtrip(e.state_size as int);
    assert(le_u32_at(b, 8) == le_u32_at(u32_le(e.state_size as int), 0));
    let ws = Seq::new(((b.len() - 12) / 8) as nat, |k: int| le_u64_at(b, 12 + 8 * k) as u64);
    assert(ws.len() == plen);
    assert forall|k: int| 0 <= k < plen implies #[trigger] ws[k] == payload[k] by {
        lemma_words_bytes_at(payload, plen, k);
        assert(le_u64_at(b, 12 + 8 * k) == le_u64_at(words_bytes(payload, plen), 8 * k));
    }
    assert(ws =~= payload);
}

} // verus!
