use vstd::prelude::*;

verus! {

/// Sample rate the engine requires.
pub const TARGET_SAMPLE_RATE: u32 = 16000;

/// Fixed-point scale of normalized samples: a stored `i64` stands for the
/// real amplitude `value / FIXED_ONE`, so `FIXED_ONE` is full scale (1.0).
/// The scale is 2^32, twice the range of a 32-bit source sample, so that
/// both supported bit depths map in exactly and the average of a channel
/// pair stays exact.
pub const FIXED_ONE: i64 = 4294967296;

/// Decoded audio as it comes out of a container or a capture: integer PCM
/// samples, interleaved when stereo, with the source format's metadata.
pub struct AudioBuffer {
    /// The flat sample array; for 16-bit sources each element holds an
    /// `i16` value, for 32-bit sources a full `i32` value.
    pub samples: Vec<i32>,
    pub sample_rate: u32,
    pub bits_per_sample: u16,
    pub channels: u16,
}

impl AudioBuffer {
    /// The formats the preprocessor accepts: any positive sample rate,
    /// 16 or 32 bits per sample (16-bit samples within `i16` range),
    /// mono or stereo.
    pub open spec fn wf(self) -> bool {
        &&& self.sample_rate >= 1
        &&& (self.bits_per_sample == 16 || self.bits_per_sample == 32)
        &&& (self.channels == 1 || self.channels == 2)
        &&& (self.bits_per_sample == 16 ==> forall|i: int|
            0 <= i < self.samples@.len() ==> -32768 <= #[trigger] self.samples@[i] <= 32767)
    }
}

/// The engine's only accepted input: 16 kHz mono samples on the fixed-point
/// scale, amplitudes within full scale.
pub struct NormalizedPcm {
    samples: Vec<i64>,
}

impl View for NormalizedPcm {
    type V = Seq<i64>;

    closed spec fn view(&self) -> Seq<i64> {
        self.samples@
    }
}

impl NormalizedPcm {
    /// Amplitudes stay within [-1.0, 1.0] of full scale.
    pub open spec fn wf(self) -> bool {
        forall|i: int| 0 <= i < self@.len() ==> -FIXED_ONE <= #[trigger] self@[i] <= FIXED_ONE
    }

    /// Wrap samples that are already in the engine's format.
    pub fn new(samples: Vec<i64>) -> (p: Self)
        requires
            forall|i: int| 0 <= i < samples@.len() ==> -FIXED_ONE <= #[trigger] samples@[i]
                <= FIXED_ONE,
        ensures
            p@ == samples@,
            p.wf(),
    {
        NormalizedPcm { samples }
    }

    /// Wrap raw capture samples, each clamped to full scale; a sample
    /// already in range is kept exactly.
    pub fn from_capture(samples: Vec<i64>) -> (p: Self)
        ensures
            p@.len() == samples@.len(),
            forall|i: int| 0 <= i < samples@.len() ==> p@[i] == clamp_fixed(
                #[trigger] samples@[i],
            ),
            p.wf(),
    {
        let mut out: Vec<i64> = Vec::new();
        let mut i: usize = 0;
        while i < samples.len()
            invariant
                i <= samples@.len(),
                out@.len() == i,
                forall|j: int| 0 <= j < i ==> out@[j] == clamp_fixed(#[trigger] samples@[j]),
            decreases samples@.len() - i,
        {
            let s = samples[i];
            let c: i64 = if s < -FIXED_ONE {
                -FIXED_ONE
            } else if s > FIXED_ONE {
                FIXED_ONE
            } else {
                s
            };
            out.push(c);
            i = i + 1;
        }
        proof {
            assert forall|j: int| 0 <= j < out@.len() implies -FIXED_ONE <= #[trigger] out@[j]
                <= FIXED_ONE by {
                assert(out@[j] == clamp_fixed(samples@[j]));
            }
        }
        NormalizedPcm { samples: out }
    }

    /// The samples, for the caller to hand to the inference call.
    pub fn samples(&self) -> (s: &Vec<i64>)
        ensures
            s@ == self@,
    {
        &self.samples
    }

    pub fn len(&self) -> (n: usize)
        ensures
            n == self@.len(),
    {
        self.samples.len()
    }

    /// The one sample rate this shape can carry.
    pub fn sample_rate(&self) -> (r: u32)
        ensures
            r == TARGET_SAMPLE_RATE,
    {
        TARGET_SAMPLE_RATE
    }

    /// The one channel count this shape can carry.
    pub fn channels(&self) -> (c: u16)
        ensures
            c == 1,
    {
        1
    }
}

// ---------------------------------------------------------------------------
// The pipeline, stage by stage, as specification functions.
// ---------------------------------------------------------------------------

/// The sample clamped to full scale.
pub open spec fn clamp_fixed(v: i64) -> i64 {
    if v < -FIXED_ONE {
        (-FIXED_ONE) as i64
    } else if v > FIXED_ONE {
        FIXED_ONE
    } else {
        v
    }
}

/// Fixed-point value of one integer sample: a 16-bit sample is scaled by
/// 2^17 (its value over 32768), a 32-bit sample by 2 (its value over 2^31).
pub open spec fn norm_sample(bits_per_sample: u16, s: i32) -> int {
    if bits_per_sample == 16 {
        s * 131072
    } else {
        s * 2
    }
}

/// Bit-depth normalization of the whole flat buffer.
pub open spec fn norm_seq(bits_per_sample: u16, s: Seq<i32>) -> Seq<i64> {
    Seq::new(s.len(), |i: int| norm_sample(bits_per_sample, s[i]) as i64)
}

/// Length of the resampled buffer: `len * 16000 / rate`, rounded to the
/// nearest integer, halves up.
pub open spec fn resampled_len(len: nat, rate: nat) -> nat
    recommends
        rate >= 1,
{
    ((len * 32000 + rate) / (2 * rate)) as nat
}

/// The source index selected for target index `i` under nearest-neighbor
/// mapping: `floor(i * rate / 16000)`.
pub open spec fn src_index(i: int, rate: nat) -> int {
    (i * rate) / 16000
}

/// Nearest-neighbor resampling of the flat buffer to 16 kHz.
pub open spec fn resample_seq(s: Seq<i64>, rate: nat) -> Seq<i64>
    recommends
        rate >= 1,
{
    Seq::new(resampled_len(s.len(), rate), |i: int| s[src_index(i, rate)])
}

/// Length after channel folding: pairs, plus the trailing unpaired sample
/// when the length is odd.
pub open spec fn fold_len(len: nat) -> nat {
    ((len + 1) / 2) as nat
}

/// One mono sample: the average of an interleaved pair, the trailing
/// unpaired sample being averaged against silence.  The division is exact
/// for the even values every pipeline stage produces.
pub open spec fn fold_sample(s: Seq<i64>, i: int) -> int {
    if 2 * i + 1 < s.len() {
        (s[2 * i] + s[2 * i + 1]) / 2
    } else {
        (s[2 * i] + 0) / 2
    }
}

/// Stereo-to-mono folding of the whole buffer.
pub open spec fn fold_seq(s: Seq<i64>) -> Seq<i64> {
    Seq::new(fold_len(s.len()), |i: int| fold_sample(s, i) as i64)
}

/// The whole preprocessing pipeline in the order the engine applies it:
/// bit-depth normalization, then resampling of the flat — still
/// interleaved — buffer, then channel folding; each of the last two only
/// where the format asks for it.
pub open spec fn preprocess_seq(s: Seq<i32>, sample_rate: u32, bits_per_sample: u16, channels: u16) -> Seq<
    i64,
> {
    let n = norm_seq(bits_per_sample, s);
    let r = if sample_rate != TARGET_SAMPLE_RATE {
        resample_seq(n, sample_rate as nat)
    } else {
        n
    };
    if channels == 2 {
        fold_seq(r)
    } else {
        r
    }
}

/// The pipeline applied to a decoded buffer.
pub open spec fn preprocess_spec(b: AudioBuffer) -> Seq<i64> {
    preprocess_seq(b.samples@, b.sample_rate, b.bits_per_sample, b.channels)
}

// ---------------------------------------------------------------------------
// Helper facts about the stages.
// ---------------------------------------------------------------------------

/// Every sample the pipeline carries sits on the fixed-point scale as an
/// even value within full scale.
pub open spec fn scaled(s: Seq<i64>) -> bool {
    forall|i: int| 0 <= i < s.len() ==> -FIXED_ONE <= #[trigger] s[i] <= FIXED_ONE && s[i] % 2
        == 0
}

/// Normalization of well-formed input lands on the fixed-point scale.
proof fn lemma_norm_scaled(bits_per_sample: u16, s: Seq<i32>)
    requires
        bits_per_sample == 16 || bits_per_sample == 32,
        bits_per_sample == 16 ==> forall|i: int| 0 <= i < s.len() ==> -32768 <= #[trigger] s[i]
            <= 32767,
    ensures
        scaled(norm_seq(bits_per_sample, s)),
{
    let n = norm_seq(bits_per_sample, s);
    assert forall|i: int| 0 <= i < n.len() implies -FIXED_ONE <= #[trigger] n[i] <= FIXED_ONE
        && n[i] % 2 == 0 by {
        let v = norm_sample(bits_per_sample, s[i]);
        if bits_per_sample == 16 {
            assert(-4294967296 <= v <= 4294967296 && v % 2 == 0) by (nonlinear_arith)
                requires
                    v == s[i] * 131072,
                    -32768 <= s[i] <= 32767,
            ;
        } else {
            assert(-4294967296 <= v <= 4294967296 && v % 2 == 0) by (nonlinear_arith)
                requires
                    v == s[i] * 2,
                    -2147483648 <= s[i] <= 2147483647,
            ;
        }
    }
}

/// For every in-range target index the selected source index is in range:
/// resampling never drops a sample.
pub proof fn lemma_src_index_in_range(len: nat, rate: nat, i: int)
    requires
        rate >= 1,
        0 <= i < resampled_len(len, rate),
    ensures
        0 <= src_index(i, rate) < len,
{
    let d = (2 * rate) as int;
    let x = (len * 32000 + rate) as int;
    let rl = resampled_len(len, rate) as int;
    vstd::arithmetic::div_mod::lemma_fundamental_div_mod(x, d);
    vstd::arithmetic::div_mod::lemma_mod_division_less_than_divisor(x, d);
    vstd::arithmetic::div_mod::lemma_div_pos_is_pos(x, d);
    assert(d * rl <= x);
    assert(i * rate < 16000 * (len as int)) by (nonlinear_arith)
        requires
            d == 2 * rate,
            x == len * 32000 + rate,
            d * rl <= x,
            0 <= i < rl,
            rate >= 1,
    ;
    vstd::arithmetic::div_mod::lemma_multiply_divide_lt(i * rate, 16000, len as int);
    vstd::arithmetic::div_mod::lemma_div_pos_is_pos(i * rate, 16000);
}

/// Resampling only rearranges samples, so the fixed-point scale carries over.
proof fn lemma_resample_scaled(s: Seq<i64>, rate: nat)
    requires
        rate >= 1,
        scaled(s),
    ensures
        scaled(resample_seq(s, rate)),
{
    let r = resample_seq(s, rate);
    assert forall|i: int| 0 <= i < r.len() implies -FIXED_ONE <= #[trigger] r[i] <= FIXED_ONE
        && r[i] % 2 == 0 by {
        lemma_src_index_in_range(s.len(), rate, i);
    }
}

/// Folding averages values within full scale, so the result stays within
/// full scale.
proof fn lemma_fold_bounded(s: Seq<i64>)
    requires
        forall|i: int| 0 <= i < s.len() ==> -FIXED_ONE <= #[trigger] s[i] <= FIXED_ONE,
    ensures
        forall|i: int| 0 <= i < fold_seq(s).len() ==> -FIXED_ONE <= #[trigger] fold_seq(s)[i]
            <= FIXED_ONE,
{
    let f = fold_seq(s);
    assert forall|i: int| 0 <= i < f.len() implies -FIXED_ONE <= #[trigger] f[i] <= FIXED_ONE by {
        lemma_fold_sample_bounded(s, i);
    }
}

/// The average of one pair stays within full scale.
proof fn lemma_fold_sample_bounded(s: Seq<i64>, i: int)
    requires
        0 <= i < fold_len(s.len()),
        forall|j: int| 0 <= j < s.len() ==> -FIXED_ONE <= #[trigger] s[j] <= FIXED_ONE,
    ensures
        -FIXED_ONE <= fold_sample(s, i) <= FIXED_ONE,
{
    assert(0 <= 2 * i < s.len());
    let sum = if 2 * i + 1 < s.len() {
        s[2 * i] + s[2 * i + 1]
    } else {
        s[2 * i] + 0
    };
    assert(-2 * FIXED_ONE <= sum <= 2 * FIXED_ONE);
    vstd::arithmetic::div_mod::lemma_div_is_ordered(-2 * FIXED_ONE, sum, 2);
    vstd::arithmetic::div_mod::lemma_div_is_ordered(sum, 2 * FIXED_ONE, 2);
}

// ---------------------------------------------------------------------------
// The executable pipeline.
// ---------------------------------------------------------------------------

/// Scale every sample to the fixed-point range.
fn normalize_bit_depth(samples: &Vec<i32>, bits_per_sample: u16) -> (r: Vec<i64>)
    requires
        bits_per_sample == 16 || bits_per_sample == 32,
    ensures
        r@ == norm_seq(bits_per_sample, samples@),
{
    let mut out: Vec<i64> = Vec::new();
    let mut i: usize = 0;
    while i < samples.len()
        invariant
            i <= samples@.len(),
            bits_per_sample == 16 || bits_per_sample == 32,
            out@ == norm_seq(bits_per_sample, samples@).take(i as int),
        decreases samples@.len() - i,
    {
        let s = samples[i];
        let v: i64 = if bits_per_sample == 16 {
            (s as i64) * 131072
        } else {
            (s as i64) * 2
        };
        out.push(v);
        proof {
            assert(out@ =~= norm_seq(bits_per_sample, samples@).take(i + 1));
        }
        i = i + 1;
    }
    proof {
        assert(out@ =~= norm_seq(bits_per_sample, samples@));
    }
    out
}

/// Nearest-neighbor resampling of the flat buffer to 16 kHz: target index
/// `i` takes the source sample at `floor(i * rate / 16000)`, skipping any
/// index that would fall past the end (none can, see
/// [`lemma_src_index_in_range`]).
fn resample(samples: &Vec<i64>, sample_rate: u32) -> (r: Vec<i64>)
    requires
        sample_rate >= 1,
        resampled_len(samples@.len(), sample_rate as nat) <= usize::MAX,
    ensures
        r@ == resample_seq(samples@, sample_rate as nat),
{
    let len = samples.len();
    let rate = sample_rate as u128;
    let new_len_wide: u128 = (len as u128 * 32000 + rate) / (2 * rate);
    proof {
        assert(new_len_wide == resampled_len(samples@.len(), sample_rate as nat));
    }
    let new_len: usize = new_len_wide as usize;
    let mut out: Vec<i64> = Vec::new();
    let mut i: usize = 0;
    while i < new_len
        invariant
            i <= new_len,
            new_len == resampled_len(samples@.len(), sample_rate as nat),
            len == samples@.len(),
            sample_rate >= 1,
            rate == sample_rate,
            out@ == resample_seq(samples@, sample_rate as nat).take(i as int),
        decreases new_len - i,
    {
        proof {
            lemma_src_index_in_range(samples@.len(), sample_rate as nat, i as int);
        }
        let idx_wide: u128 = (i as u128 * rate) / 16000;
        let idx: usize = idx_wide as usize;
        if idx < len {
            out.push(samples[idx]);
        }
        proof {
            assert(out@ =~= resample_seq(samples@, sample_rate as nat).take(i + 1));
        }
        i = i + 1;
    }
    proof {
        assert(out@ =~= resample_seq(samples@, sample_rate as nat));
    }
    out
}

/// Average each consecutive interleaved pair into one mono sample; a
/// trailing unpaired sample is averaged against silence.
fn fold_stereo(samples: &Vec<i64>) -> (r: Vec<i64>)
    requires
        scaled(samples@),
    ensures
        r@ == fold_seq(samples@),
{
    let len = samples.len();
    let half = len / 2;
    let n_out = if len % 2 == 1 {
        half + 1
    } else {
        half
    };
    proof {
        vstd::arithmetic::div_mod::lemma_fundamental_div_mod(len as int, 2);
        vstd::arithmetic::div_mod::lemma_mod_division_less_than_divisor(len as int, 2);
        if len % 2 == 1 {
            vstd::arithmetic::div_mod::lemma_div_multiples_vanish_fancy(half as int + 1, 0, 2);
        } else {
            vstd::arithmetic::div_mod::lemma_div_multiples_vanish_fancy(half as int, 1, 2);
        }
        assert(n_out == fold_len(samples@.len()));
        assert(2 * n_out <= len + 1);
    }
    let mut out: Vec<i64> = Vec::new();
    let mut i: usize = 0;
    while i < n_out
        invariant
            len == samples@.len(),
            n_out == fold_len(samples@.len()),
            2 * n_out <= len + 1,
            i <= n_out,
            scaled(samples@),
            out@ == fold_seq(samples@).take(i as int),
        decreases n_out - i,
    {
        let left = samples[2 * i];
        let right = if 2 * i + 1 < len {
            samples[2 * i + 1]
        } else {
            0
        };
        proof {
            lemma_fold_sample_bounded(samples@, i as int);
            vstd::arithmetic::div_mod::lemma_add_mod_noop(left as int, right as int, 2);
        }
        let avg: i64 = (left + right) / 2;
        out.push(avg);
        proof {
            assert(out@ =~= fold_seq(samples@).take(i + 1));
        }
        i = i + 1;
    }
    proof {
        assert(out@ =~= fold_seq(samples@));
    }
    out
}

/// Normalize arbitrary decoded audio into the exact shape the engine
/// requires: fixed-point amplitudes, 16 kHz, one channel.  The stages run
/// in the engine's order — bit depth, then resampling of the flat buffer,
/// then channel folding — and each is skipped when the input already
/// satisfies it.  This transformation never fails.
pub fn preprocess(buf: AudioBuffer) -> (p: NormalizedPcm)
    requires
        buf.wf(),
        resampled_len(buf.samples@.len(), buf.sample_rate as nat) <= usize::MAX,
    ensures
        p@ == preprocess_spec(buf),
        p.wf(),
{
    proof {
        lemma_norm_scaled(buf.bits_per_sample, buf.samples@);
    }
    let normalized = normalize_bit_depth(&buf.samples, buf.bits_per_sample);
    let resampled = if buf.sample_rate != TARGET_SAMPLE_RATE {
        resample(&normalized, buf.sample_rate)
    } else {
        normalized
    };
    proof {
        if buf.sample_rate != TARGET_SAMPLE_RATE {
            lemma_resample_scaled(norm_seq(buf.bits_per_sample, buf.samples@),
                buf.sample_rate as nat);
        }
    }
    let mono = if buf.channels == 2 {
        fold_stereo(&resampled)
    } else {
        resampled
    };
    proof {
        if buf.channels == 2 {
            lemma_fold_bounded(
                if buf.sample_rate != TARGET_SAMPLE_RATE {
                    resample_seq(norm_seq(buf.bits_per_sample, buf.samples@),
                        buf.sample_rate as nat)
                } else {
                    norm_seq(buf.bits_per_sample, buf.samples@)
                },
            );
        }
    }
    NormalizedPcm::new(mono)
}

// ---------------------------------------------------------------------------
// Laws of the pipeline.
// ---------------------------------------------------------------------------

/// Law: for every supported input format, preprocessing yields amplitudes
/// within full scale — together with [`NormalizedPcm::sample_rate`] and
/// [`NormalizedPcm::channels`], the output always satisfies the engine's
/// 16 kHz mono requirement.
pub proof fn lemma_preprocess_normalized(
    s: Seq<i32>,
    sample_rate: u32,
    bits_per_sample: u16,
    channels: u16,
)
    requires
        sample_rate >= 1,
        bits_per_sample == 16 || bits_per_sample == 32,
        channels == 1 || channels == 2,
        bits_per_sample == 16 ==> forall|i: int| 0 <= i < s.len() ==> -32768 <= #[trigger] s[i]
            <= 32767,
    ensures
        forall|i: int|
            0 <= i < preprocess_seq(s, sample_rate, bits_per_sample, channels).len() ==> -FIXED_ONE
                <= #[trigger] preprocess_seq(s, sample_rate, bits_per_sample, channels)[i]
                <= FIXED_ONE,
{
    lemma_norm_scaled(bits_per_sample, s);
    let n = norm_seq(bits_per_sample, s);
    if sample_rate != TARGET_SAMPLE_RATE {
        lemma_resample_scaled(n, sample_rate as nat);
    }
    let r = if sample_rate != TARGET_SAMPLE_RATE {
        resample_seq(n, sample_rate as nat)
    } else {
        n
    };
    if channels == 2 {
        lemma_fold_bounded(r);
    }
}

/// Law: resampling is deterministic — the output is a function of the
/// input buffer and rate alone — its length is `len * 16000 / rate`
/// rounded to the nearest integer (halves up), and every output sample is
/// the source sample at `floor(i * rate / 16000)`, an index that is always
/// in range.
pub proof fn lemma_resample_mapping(s: Seq<i64>, rate: nat)
    requires
        rate >= 1,
    ensures
        resample_seq(s, rate).len() == resampled_len(s.len(), rate),
        s.len() * 32000 - rate < 2 * rate * resampled_len(s.len(), rate) <= s.len() * 32000
            + rate,
        forall|i: int| 0 <= i < resampled_len(s.len(), rate) ==> 0 <= #[trigger] src_index(i, rate)
            < s.len(),
        forall|i: int| 0 <= i < resampled_len(s.len(), rate) ==> resample_seq(s, rate)[i]
            == s[src_index(i, rate)],
{
    let d = (2 * rate) as int;
    let x = (s.len() * 32000 + rate) as int;
    let rl = resampled_len(s.len(), rate) as int;
    vstd::arithmetic::div_mod::lemma_fundamental_div_mod(x, d);
    vstd::arithmetic::div_mod::lemma_mod_division_less_than_divisor(x, d);
    vstd::arithmetic::div_mod::lemma_div_pos_is_pos(x, d);
    assert(x - d < d * rl <= x);
    assert forall|i: int| 0 <= i < resampled_len(s.len(), rate) implies 0 <= #[trigger] src_index(
        i,
        rate,
    ) < s.len() by {
        lemma_src_index_in_range(s.len(), rate, i);
    }
}

/// Law: channel folding yields, at each index, the floored average of the
/// interleaved pair `(s[2i], s[2i+1])`, and — when the length is odd — the
/// trailing unpaired sample averaged against silence; the output holds one
/// sample per pair.
pub proof fn lemma_fold_pairs(s: Seq<i64>)
    ensures
        fold_seq(s).len() == (s.len() + 1) / 2,
        forall|i: int| 0 <= i && 2 * i + 1 < s.len() ==> #[trigger] fold_seq(s)[i] == (s[2 * i]
            + s[2 * i + 1]) / 2,
        s.len() % 2 == 1 ==> fold_seq(s)[s.len() as int / 2] == (s[s.len() - 1] + 0) / 2,
{
    assert forall|i: int| 0 <= i && 2 * i + 1 < s.len() implies #[trigger] fold_seq(s)[i] == (
    s[2 * i] + s[2 * i + 1]) / 2 by {
        lemma_half_fits_i64(s[2 * i] + s[2 * i + 1]);
        assert(i < fold_len(s.len()));
    }
    if s.len() % 2 == 1 {
        let i = s.len() as int / 2;
        assert(2 * i + 1 == s.len());
        lemma_half_fits_i64(s[s.len() - 1] + 0);
        assert(fold_seq(s)[i] == (s[s.len() - 1] + 0) / 2);
    }
}

/// The floored half of a sum of two `i64` values fits in `i64`.
proof fn lemma_half_fits_i64(sum: int)
    requires
        2 * (i64::MIN as int) <= sum <= 2 * (i64::MAX as int),
    ensures
        i64::MIN <= sum / 2 <= i64::MAX,
{
    vstd::arithmetic::div_mod::lemma_div_is_ordered(2 * (i64::MIN as int), sum, 2);
    vstd::arithmetic::div_mod::lemma_div_is_ordered(sum, 2 * (i64::MAX as int), 2);
}

} // verus!
