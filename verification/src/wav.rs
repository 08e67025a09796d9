use vstd::prelude::*;
use crate::audio::{AudioBuffer, NormalizedPcm, preprocess, preprocess_seq, resampled_len};
use crate::error::CoreError;

verus! {

/// Why a byte buffer could not be decoded as PCM WAV audio.
#[derive(Debug)]
pub enum WavError {
    /// Fewer than the twelve bytes every RIFF/WAVE header takes.
    TooShort,
    /// The buffer does not start with the RIFF tag.
    NotRiff,
    /// The RIFF form is not WAVE.
    NotWave,
    /// A chunk header promises more bytes than the buffer holds.
    TruncatedChunk,
    /// The chunk list ended before a data chunk was found.
    MissingData,
    /// A data chunk appeared before any format chunk.
    MissingFmt,
    /// The format chunk is shorter than the fixed PCM layout.
    ShortFmt,
    /// The encoding is not integer PCM.
    UnsupportedEncoding,
    /// More channels than mono or stereo.
    UnsupportedChannels,
    /// A sample rate of zero.
    ZeroSampleRate,
    /// A bit depth other than 16 or 32.
    UnsupportedBitDepth,
}

impl WavError {
    /// The user-facing text of the error.
    pub open spec fn text_spec(self) -> Seq<char> {
        match self {
            WavError::TooShort => "file too short for a RIFF header"@,
            WavError::NotRiff => "not a RIFF file"@,
            WavError::NotWave => "RIFF form is not WAVE"@,
            WavError::TruncatedChunk => "chunk extends past end of file"@,
            WavError::MissingData => "no data chunk"@,
            WavError::MissingFmt => "data chunk before any fmt chunk"@,
            WavError::ShortFmt => "fmt chunk too short"@,
            WavError::UnsupportedEncoding => "not integer PCM"@,
            WavError::UnsupportedChannels => "only mono or stereo is supported"@,
            WavError::ZeroSampleRate => "sample rate is zero"@,
            WavError::UnsupportedBitDepth => "only 16 or 32 bits per sample is supported"@,
        }
    }

    /// Render the error as text.
    pub fn text(&self) -> (m: String)
        ensures
            m@ == self.text_spec(),
    {
        match self {
            WavError::TooShort => String::from_str("file too short for a RIFF header"),
            WavError::NotRiff => String::from_str("not a RIFF file"),
            WavError::NotWave => String::from_str("RIFF form is not WAVE"),
            WavError::TruncatedChunk => String::from_str("chunk extends past end of file"),
            WavError::MissingData => String::from_str("no data chunk"),
            WavError::MissingFmt => String::from_str("data chunk before any fmt chunk"),
            WavError::ShortFmt => String::from_str("fmt chunk too short"),
            WavError::UnsupportedEncoding => String::from_str("not integer PCM"),
            WavError::UnsupportedChannels => String::from_str("only mono or stereo is supported"),
            WavError::ZeroSampleRate => String::from_str("sample rate is zero"),
            WavError::UnsupportedBitDepth => String::from_str(
                "only 16 or 32 bits per sample is supported",
            ),
        }
    }
}

// ---------------------------------------------------------------------------
// The container format, as specification functions over the raw bytes.
// ---------------------------------------------------------------------------

/// A little-endian 16-bit word at offset `o`.
pub open spec fn le16(b: Seq<u8>, o: int) -> int {
    b[o] + 256 * b[o + 1]
}

/// A little-endian 32-bit word at offset `o`.
pub open spec fn le32(b: Seq<u8>, o: int) -> int {
    b[o] + 256 * b[o + 1] + 65536 * b[o + 2] + 16777216 * b[o + 3]
}

/// Two's-complement value of a 16-bit word.
pub open spec fn sign16(v: int) -> int {
    if v >= 32768 {
        v - 65536
    } else {
        v
    }
}

/// Two's-complement value of a 32-bit word.
pub open spec fn sign32(v: int) -> int {
    if v >= 2147483648 {
        v - 4294967296
    } else {
        v
    }
}

/// ASCII "RIFF".
pub open spec fn riff_id() -> Seq<u8> {
    seq![82u8, 73u8, 70u8, 70u8]
}

/// ASCII "WAVE".
pub open spec fn wave_id() -> Seq<u8> {
    seq![87u8, 65u8, 86u8, 69u8]
}

/// ASCII "fmt ".
pub open spec fn fmt_chunk_id() -> Seq<u8> {
    seq![102u8, 109u8, 116u8, 32u8]
}

/// ASCII "data".
pub open spec fn data_chunk_id() -> Seq<u8> {
    seq![100u8, 97u8, 116u8, 97u8]
}

/// Whether the four bytes at `pos` are the chunk tag `id`.
pub open spec fn chunk_id_matches(b: Seq<u8>, pos: int, id: Seq<u8>) -> bool {
    b.subrange(pos, pos + 4) == id
}

/// Where the chunk at `pos` with body size `size` ends: header, body, and
/// the padding byte RIFF adds after an odd-sized body.
pub open spec fn next_chunk(pos: int, size: int) -> int {
    pos + 8 + size + (size % 2)
}

/// Walk the chunk list from `pos` carrying the format chunk seen so far
/// (its body offset and size), until the data chunk: the located format
/// and data bodies, or the first failure.
pub open spec fn find_chunks(b: Seq<u8>, pos: int, fmt: Option<(int, int)>) -> Result<
    ((int, int), (int, int)),
    WavError,
>
    recommends
        0 <= pos,
    decreases b.len() + 1 - pos,
{
    if pos + 8 > b.len() {
        Err(WavError::MissingData)
    } else {
        let size = le32(b, pos + 4);
        if pos + 8 + size > b.len() {
            Err(WavError::TruncatedChunk)
        } else if chunk_id_matches(b, pos, fmt_chunk_id()) && fmt is None {
            find_chunks(b, next_chunk(pos, size), Some((pos + 8, size)))
        } else if chunk_id_matches(b, pos, data_chunk_id()) {
            match fmt {
                Some(f) => Ok((f, (pos + 8, size))),
                None => Err(WavError::MissingFmt),
            }
        } else {
            find_chunks(b, next_chunk(pos, size), fmt)
        }
    }
}

/// The integer samples held by a data chunk body: consecutive 2- or
/// 4-byte little-endian two's-complement groups, a trailing partial group
/// dropped.
pub open spec fn samples_seq(data: Seq<u8>, bits_per_sample: u16) -> Seq<i32> {
    if bits_per_sample == 16 {
        Seq::new((data.len() / 2) as nat, |i: int| sign16(le16(data, 2 * i)) as i32)
    } else {
        Seq::new((data.len() / 4) as nat, |i: int| sign32(le32(data, 4 * i)) as i32)
    }
}

/// Decode the located format and data chunk bodies: the samples with
/// their format, or the first failure, checked in this order.
pub open spec fn parse_located(b: Seq<u8>, fo: int, fs: int, dof: int, dsz: int) -> Result<
    (Seq<i32>, u32, u16, u16),
    WavError,
> {
    if fs < 16 {
        Err(WavError::ShortFmt)
    } else {
        let tag = le16(b, fo);
        let channels = le16(b, fo + 2);
        let rate = le32(b, fo + 4);
        let bits = le16(b, fo + 14);
        if tag != 1 {
            Err(WavError::UnsupportedEncoding)
        } else if channels != 1 && channels != 2 {
            Err(WavError::UnsupportedChannels)
        } else if rate == 0 {
            Err(WavError::ZeroSampleRate)
        } else if bits != 16 && bits != 32 {
            Err(WavError::UnsupportedBitDepth)
        } else {
            Ok(
                (
                    samples_seq(b.subrange(dof, dof + dsz), bits as u16),
                    rate as u32,
                    bits as u16,
                    channels as u16,
                ),
            )
        }
    }
}

/// What decoding a byte buffer as PCM WAV yields: the samples, sample
/// rate, bit depth and channel count, or the first failure.
pub open spec fn parse_wav_spec(b: Seq<u8>) -> Result<(Seq<i32>, u32, u16, u16), WavError> {
    if b.len() < 12 {
        Err(WavError::TooShort)
    } else if !chunk_id_matches(b, 0, riff_id()) {
        Err(WavError::NotRiff)
    } else if !chunk_id_matches(b, 8, wave_id()) {
        Err(WavError::NotWave)
    } else {
        match find_chunks(b, 12, None) {
            Err(e) => Err(e),
            Ok((f, d)) => parse_located(b, f.0, f.1, d.0, d.1),
        }
    }
}

// ---------------------------------------------------------------------------
// The executable decoder.
// ---------------------------------------------------------------------------

/// Read a little-endian 16-bit word.
fn read_u16(bytes: &Vec<u8>, pos: usize) -> (v: u16)
    requires
        pos + 2 <= bytes@.len(),
    ensures
        v == le16(bytes@, pos as int),
{
    proof {
        vstd::std_specs::vec::axiom_spec_len(bytes);
    }
    (bytes[pos] as u16) + 256 * (bytes[pos + 1] as u16)
}

/// Read a little-endian 32-bit word.
fn read_u32(bytes: &Vec<u8>, pos: usize) -> (v: u32)
    requires
        pos + 4 <= bytes@.len(),
    ensures
        v == le32(bytes@, pos as int),
{
    proof {
        vstd::std_specs::vec::axiom_spec_len(bytes);
    }
    (bytes[pos] as u32) + 256 * (bytes[pos + 1] as u32) + 65536 * (bytes[pos + 2] as u32)
        + 16777216 * (bytes[pos + 3] as u32)
}

/// Two's-complement value of a 16-bit word.
fn sample_from_u16(v: u16) -> (s: i32)
    ensures
        s == sign16(v as int),
{
    if v >= 32768 {
        (v as i32) - 65536
    } else {
        v as i32
    }
}

/// Two's-complement value of a 32-bit word.
fn sample_from_u32(v: u32) -> (s: i32)
    ensures
        s == sign32(v as int),
{
    if v >= 2147483648 {
        ((v as i64) - 4294967296) as i32
    } else {
        v as i32
    }
}

/// Whether the four bytes at `pos` are the chunk tag `c0 c1 c2 c3`.
fn id_matches(bytes: &Vec<u8>, pos: usize, c0: u8, c1: u8, c2: u8, c3: u8) -> (r: bool)
    requires
        pos + 4 <= bytes@.len(),
    ensures
        r == chunk_id_matches(bytes@, pos as int, seq![c0, c1, c2, c3]),
{
    proof {
        vstd::std_specs::vec::axiom_spec_len(bytes);
    }
    let m = bytes[pos] == c0 && bytes[pos + 1] == c1 && bytes[pos + 2] == c2 && bytes[pos + 3]
        == c3;
    proof {
        let sub = bytes@.subrange(pos as int, pos as int + 4);
        assert(sub[0] == bytes@[pos as int]);
        assert(sub[1] == bytes@[pos as int + 1]);
        assert(sub[2] == bytes@[pos as int + 2]);
        assert(sub[3] == bytes@[pos as int + 3]);
        if m {
            assert(sub =~= seq![c0, c1, c2, c3]);
        }
    }
    m
}

/// Decode the samples of a data chunk body.
fn extract_samples(bytes: &Vec<u8>, data_off: usize, data_size: usize, bits_per_sample: u16) -> (out:
    Vec<i32>)
    requires
        data_off + data_size <= bytes@.len(),
        bits_per_sample == 16 || bits_per_sample == 32,
    ensures
        out@ == samples_seq(
            bytes@.subrange(data_off as int, data_off + data_size),
            bits_per_sample,
        ),
{
    let ghost data = bytes@.subrange(data_off as int, data_off + data_size);
    let bps: usize = if bits_per_sample == 16 {
        2
    } else {
        4
    };
    let count = data_size / bps;
    proof {
        vstd::arithmetic::div_mod::lemma_fundamental_div_mod(data_size as int, bps as int);
        vstd::arithmetic::div_mod::lemma_mod_division_less_than_divisor(
            data_size as int,
            bps as int,
        );
        assert(count * bps <= data_size);
    }
    let mut out: Vec<i32> = Vec::new();
    let mut i: usize = 0;
    while i < count
        invariant
            data == bytes@.subrange(data_off as int, data_off + data_size),
            data_off + data_size <= bytes@.len(),
            bits_per_sample == 16 || bits_per_sample == 32,
            bps == if bits_per_sample == 16 { 2usize } else { 4usize },
            count == data_size as int / bps as int,
            count * bps <= data_size,
            i <= count,
            out@ == samples_seq(data, bits_per_sample).take(i as int),
        decreases count - i,
    {
        proof {
            vstd::std_specs::vec::axiom_spec_len(bytes);
            vstd::arithmetic::mul::lemma_mul_inequality(i as int, count as int, bps as int);
            vstd::arithmetic::mul::lemma_mul_inequality(i as int + 1, count as int, bps as int);
            assert((i + 1) * bps == i * bps + bps) by (nonlinear_arith);
        }
        let base = data_off + i * bps;
        let s: i32 = if bits_per_sample == 16 {
            sample_from_u16(read_u16(bytes, base))
        } else {
            sample_from_u32(read_u32(bytes, base))
        };
        proof {
            let j = i as int;
            if bits_per_sample == 16 {
                assert(data[2 * j] == bytes@[data_off + 2 * j]);
                assert(data[2 * j + 1] == bytes@[data_off + 2 * j + 1]);
                assert(le16(data, 2 * j) == le16(bytes@, data_off + 2 * j));
            } else {
                assert(data[4 * j] == bytes@[data_off + 4 * j]);
                assert(data[4 * j + 1] == bytes@[data_off + 4 * j + 1]);
                assert(data[4 * j + 2] == bytes@[data_off + 4 * j + 2]);
                assert(data[4 * j + 3] == bytes@[data_off + 4 * j + 3]);
                assert(le32(data, 4 * j) == le32(bytes@, data_off + 4 * j));
            }
        }
        out.push(s);
        proof {
            assert(out@ =~= samples_seq(data, bits_per_sample).take(i + 1));
        }
        i = i + 1;
    }
    proof {
        assert(out@ =~= samples_seq(data, bits_per_sample));
    }
    out
}

/// Every 16-bit decoded sample lies within the `i16` range.
proof fn lemma_samples16_range(data: Seq<u8>)
    ensures
        forall|i: int| 0 <= i < samples_seq(data, 16).len() ==> -32768 <= #[trigger] samples_seq(
            data,
            16,
        )[i] <= 32767,
{
    assert forall|i: int| 0 <= i < samples_seq(data, 16).len() implies -32768
        <= #[trigger] samples_seq(data, 16)[i] <= 32767 by {
        assert(0 <= le16(data, 2 * i) <= 65535);
    }
}

/// Decode a byte buffer as a RIFF/WAVE file holding integer PCM: the
/// decoded buffer with its format, or the first failure
/// [`parse_wav_spec`] names.
pub fn parse_wav(bytes: &Vec<u8>) -> (r: Result<AudioBuffer, WavError>)
    ensures
        parse_wav_spec(bytes@) matches Ok(m) ==> (r matches Ok(buf) && buf.samples@ == m.0
            && buf.sample_rate == m.1 && buf.bits_per_sample == m.2 && buf.channels == m.3
            && buf.wf()),
        parse_wav_spec(bytes@) matches Err(e) ==> r == Err::<AudioBuffer, WavError>(e),
{
    let n = bytes.len();
    if n < 12 {
        return Err(WavError::TooShort);
    }
    if !id_matches(bytes, 0, 82, 73, 70, 70) {
        proof {
            assert(seq![82u8, 73u8, 70u8, 70u8] =~= riff_id());
        }
        return Err(WavError::NotRiff);
    }
    if !id_matches(bytes, 8, 87, 65, 86, 69) {
        proof {
            assert(seq![82u8, 73u8, 70u8, 70u8] =~= riff_id());
            assert(seq![87u8, 65u8, 86u8, 69u8] =~= wave_id());
        }
        return Err(WavError::NotWave);
    }
    proof {
        assert(seq![82u8, 73u8, 70u8, 70u8] =~= riff_id());
        assert(seq![87u8, 65u8, 86u8, 69u8] =~= wave_id());
    }
    let mut pos: usize = 12;
    let mut fmt_off: usize = 0;
    let mut fmt_size: usize = 0;
    let mut have_fmt: bool = false;
    let mut data_off: usize = 0;
    let mut data_size: usize = 0;
    let ghost mut fmt_v: Option<(int, int)> = None;
    loop
        invariant_except_break
            n == bytes@.len(),
            n >= 12,
            chunk_id_matches(bytes@, 0, riff_id()),
            chunk_id_matches(bytes@, 8, wave_id()),
            12 <= pos <= n,
            have_fmt <==> fmt_v is Some,
            have_fmt ==> (fmt_v == Some((fmt_off as int, fmt_size as int)) && fmt_off + fmt_size
                <= n),
            find_chunks(bytes@, pos as int, fmt_v) == find_chunks(bytes@, 12, None),
        ensures
            n == bytes@.len(),
            fmt_off + fmt_size <= n,
            data_off + data_size <= n,
            find_chunks(bytes@, 12, None) == Ok::<((int, int), (int, int)), WavError>(
                ((fmt_off as int, fmt_size as int), (data_off as int, data_size as int)),
            ),
        decreases n - pos,
    {
        if n - pos < 8 {
            proof {
                assert(find_chunks(bytes@, pos as int, fmt_v) == Err::<
                    ((int, int), (int, int)),
                    WavError,
                >(WavError::MissingData));
            }
            return Err(WavError::MissingData);
        }
        let size32 = read_u32(bytes, pos + 4);
        let size128 = size32 as u128;
        let p128 = pos as u128;
        if size128 > (n as u128) - p128 - 8 {
            proof {
                assert(find_chunks(bytes@, pos as int, fmt_v) == Err::<
                    ((int, int), (int, int)),
                    WavError,
                >(WavError::TruncatedChunk));
            }
            return Err(WavError::TruncatedChunk);
        }
        let size = size32 as usize;
        let is_fmt = id_matches(bytes, pos, 102, 109, 116, 32);
        let is_data = id_matches(bytes, pos, 100, 97, 116, 97);
        proof {
            assert(seq![102u8, 109u8, 116u8, 32u8] =~= fmt_chunk_id());
            assert(seq![100u8, 97u8, 116u8, 97u8] =~= data_chunk_id());
        }
        if is_fmt && !have_fmt {
            proof {
                assert(find_chunks(bytes@, pos as int, fmt_v) == find_chunks(
                    bytes@,
                    next_chunk(pos as int, size as int),
                    Some((pos as int + 8, size as int)),
                ));
            }
            fmt_off = pos + 8;
            fmt_size = size;
            have_fmt = true;
            proof {
                fmt_v = Some((fmt_off as int, fmt_size as int));
            }
        } else if is_data {
            if !have_fmt {
                proof {
                    assert(find_chunks(bytes@, pos as int, fmt_v) == Err::<
                        ((int, int), (int, int)),
                        WavError,
                    >(WavError::MissingFmt));
                }
                return Err(WavError::MissingFmt);
            }
            data_off = pos + 8;
            data_size = size;
            proof {
                assert(find_chunks(bytes@, pos as int, fmt_v) == Ok::<
                    ((int, int), (int, int)),
                    WavError,
                >(((fmt_off as int, fmt_size as int), (data_off as int, data_size as int))));
            }
            break;
        }
        let pad: u128 = size128 % 2;
        let next128: u128 = p128 + 8 + size128 + pad;
        proof {
            assert(next128 == next_chunk(pos as int, size as int));
            assert(find_chunks(bytes@, pos as int, fmt_v) == find_chunks(
                bytes@,
                next_chunk(pos as int, size as int),
                fmt_v,
            ));
        }
        if next128 > n as u128 {
            proof {
                assert(find_chunks(bytes@, next128 as int, fmt_v) == Err::<
                    ((int, int), (int, int)),
                    WavError,
                >(WavError::MissingData));
            }
            return Err(WavError::MissingData);
        }
        pos = next128 as usize;
    }
    // The format chunk body.
    if fmt_size < 16 {
        return Err(WavError::ShortFmt);
    }
    let tag = read_u16(bytes, fmt_off);
    let channels16 = read_u16(bytes, fmt_off + 2);
    let rate = read_u32(bytes, fmt_off + 4);
    let bits = read_u16(bytes, fmt_off + 14);
    if tag != 1 {
        return Err(WavError::UnsupportedEncoding);
    }
    if channels16 != 1 && channels16 != 2 {
        return Err(WavError::UnsupportedChannels);
    }
    if rate == 0 {
        return Err(WavError::ZeroSampleRate);
    }
    if bits != 16 && bits != 32 {
        return Err(WavError::UnsupportedBitDepth);
    }
    let samples = extract_samples(bytes, data_off, data_size, bits);
    proof {
        if bits == 16 {
            lemma_samples16_range(bytes@.subrange(data_off as int, data_off + data_size));
        }
    }
    Ok(AudioBuffer { samples, sample_rate: rate, bits_per_sample: bits, channels: channels16 })
}

/// The spoken-audio shape of a WAV byte buffer: decode it, then normalize
/// it into the 16 kHz mono fixed-point shape the engine requires.  Fails
/// exactly when the container cannot be decoded — or in the one corner
/// machine limits force, a decoded buffer whose resampled length would
/// not fit in memory.
pub fn decode_audio_bytes(bytes: &Vec<u8>) -> (r: Result<NormalizedPcm, CoreError>)
    ensures
        parse_wav_spec(bytes@) matches Err(e) ==> (r matches Err(ce) && ce matches
            CoreError::AudioDecodeFailed { cause } && cause@ == e.text_spec()),
        parse_wav_spec(bytes@) matches Ok(m) ==> {
            if resampled_len(m.0.len(), m.1 as nat) <= usize::MAX {
                r matches Ok(p) && p@ == preprocess_seq(m.0, m.1, m.2, m.3) && p.wf()
            } else {
                r matches Err(ce) && ce matches CoreError::AudioDecodeFailed { cause } && cause@
                    == "decoded audio too long to resample"@
            }
        },
{
    match parse_wav(bytes) {
        Err(e) => Err(CoreError::AudioDecodeFailed { cause: e.text() }),
        Ok(buf) => {
            let len128 = buf.samples.len() as u128;
            let rate128 = buf.sample_rate as u128;
            let rl: u128 = (len128 * 32000 + rate128) / (2 * rate128);
            proof {
                assert(rl == resampled_len(buf.samples@.len(), buf.sample_rate as nat));
            }
            if rl > usize::MAX as u128 {
                Err(
                    CoreError::AudioDecodeFailed {
                        cause: String::from_str("decoded audio too long to resample"),
                    },
                )
            } else {
                Ok(preprocess(buf))
            }
        },
    }
}

} // verus!
