//! Sample layout of decoded audio: decoded packets are turned into interleaved
//! stereo, and 16-bit samples are packed into little-endian bytes for export.
use vstd::arithmetic::div_mod::{lemma_fundamental_div_mod_converse_div, lemma_fundamental_div_mod_converse_mod};
use vstd::prelude::*;

verus! {

/// Number of (possibly partial) frames of `channels` samples in `len` interleaved samples.
pub open spec fn chunk_count(len: nat, channels: nat) -> nat
    recommends
        channels > 0,
{
    ((len + channels - 1) / channels as int) as nat
}

/// `out` holds `prefix` followed by each sample of the mono samples `raw` twice
/// (left, then right).
pub open spec fn appends_doubled<T>(out: Seq<T>, prefix: Seq<T>, raw: Seq<T>) -> bool {
    &&& out.len() == prefix.len() + 2 * raw.len()
    &&& forall|i: int|
        0 <= i < raw.len() ==> #[trigger] out[prefix.len() + 2 * i] == raw[i] && out[prefix.len()
            + 2 * i + 1] == raw[i]
}

/// `out` holds `prefix` followed by the first two samples of every frame of
/// `channels` samples in `raw` (the last frame may be partial).
pub open spec fn appends_first_pairs<T>(out: Seq<T>, prefix: Seq<T>, raw: Seq<T>, channels: usize) -> bool {
    &&& out.len() == prefix.len() + 2 * chunk_count(raw.len(), channels as nat)
    &&& forall|c: int|
        0 <= c < chunk_count(raw.len(), channels as nat) ==> #[trigger] out[prefix.len() + 2 * c]
            == raw[c * channels] && out[prefix.len() + 2 * c + 1] == raw[c * channels + 1]
}

/// `out` is `prefix` followed by the stereo form of the interleaved samples `raw`
/// with `channels` channels: a mono sample is played on both sides; of a frame of
/// two or more channels the first two are kept; with no channel nothing is kept.
pub open spec fn appends_stereo<T>(out: Seq<T>, prefix: Seq<T>, raw: Seq<T>, channels: usize) -> bool {
    &&& out.subrange(0, prefix.len() as int) == prefix
    &&& if channels == 1 {
        appends_doubled(out, prefix, raw)
    } else if channels >= 2 {
        appends_first_pairs(out, prefix, raw, channels)
    } else {
        out.len() == prefix.len()
    }
}

/// The chunk starting at `c * channels` has a second sample whenever it starts
/// inside the buffer and no frame is cut after its first sample.
proof fn lemma_chunk_has_pair(len: int, channels: int, c: int)
    requires
        channels >= 2,
        0 <= c,
        c * channels < len,
        len % channels != 1,
    ensures
        c * channels + 1 < len,
{
    if c * channels + 1 == len {
        lemma_fundamental_div_mod_converse_mod(len, channels, c, 1);
    }
}

/// Appends the samples of one decoded packet, interleaved with `channels`
/// channels, to `out` as interleaved stereo (see `appends_stereo`).
pub fn append_stereo<T: Copy>(out: &mut Vec<T>, raw: &[T], channels: usize)
    requires
        channels >= 2 ==> (raw@.len() as int) % (channels as int) != 1,
        old(out)@.len() + 2 * raw@.len() <= usize::MAX,
    ensures
        appends_stereo(final(out)@, old(out)@, raw@, channels),
{
    let ghost prefix = out@;
    let base = out.len();
    if channels == 1 {
        let mut i: usize = 0;
        while i < raw.len()
            invariant
                i <= raw@.len(),
                base == prefix.len(),
                prefix.len() + 2 * raw@.len() <= usize::MAX,
                out@.len() == base + 2 * i,
                out@.subrange(0, base as int) == prefix,
                forall|k: int|
                    0 <= k < i ==> #[trigger] out@[base + 2 * k] == raw@[k] && out@[base + 2 * k
                        + 1] == raw@[k],
            decreases raw@.len() - i,
        {
            let s = raw[i];
            let ghost before = out@;
            out.push(s);
            out.push(s);
            assert forall|k: int| 0 <= k < i + 1 implies #[trigger] out@[base + 2 * k] == raw@[k]
                && out@[base + 2 * k + 1] == raw@[k] by {
                if k < i {
                    assert(out@[base + 2 * k] == before[base + 2 * k]);
                    assert(out@[base + 2 * k + 1] == before[base + 2 * k + 1]);
                }
            }
            assert(out@.subrange(0, base as int) =~= before.subrange(0, base as int));
            i = i + 1;
        }
        assert(appends_doubled(out@, prefix, raw@));
        assert(appends_stereo(out@, prefix, raw@, channels));
    } else if channels >= 2 {
        let len = raw.len();
        let count: usize = if len % channels == 0 { len / channels } else { len / channels + 1 };
        proof {
            lemma_chunks(len as int, channels as int);
        }
        let mut chunk: usize = 0;
        while chunk < count
            invariant
                channels >= 2,
                len == raw@.len(),
                (len as int) % (channels as int) != 1,
                count == chunk_count(len as nat, channels as nat),
                forall|k: int| 0 <= k < count ==> #[trigger] (k * channels) < len,
                base == prefix.len(),
                prefix.len() + 2 * raw@.len() <= usize::MAX,
                chunk <= count,
                count <= len,
                out@.len() == base + 2 * chunk,
                out@.subrange(0, base as int) == prefix,
                forall|k: int|
                    0 <= k < chunk ==> #[trigger] out@[base + 2 * k] == raw@[k * channels] && out@[base
                        + 2 * k + 1] == raw@[k * channels + 1],
            decreases count - chunk,
        {
            assert((chunk as int * channels) < len);
            let start: usize = chunk * channels;
            proof {
                lemma_chunk_has_pair(len as int, channels as int, chunk as int);
            }
            let ghost before = out@;
            out.push(raw[start]);
            out.push(raw[start + 1]);
            assert forall|k: int|
                0 <= k < chunk + 1 implies #[trigger] out@[base + 2 * k] == raw@[k * channels]
                && out@[base + 2 * k + 1] == raw@[k * channels + 1] by {
                if k < chunk {
                    assert(out@[base + 2 * k] == before[base + 2 * k]);
                    assert(out@[base + 2 * k + 1] == before[base + 2 * k + 1]);
                }
            }
            assert(out@.subrange(0, base as int) =~= before.subrange(0, base as int));
            chunk = chunk + 1;
        }
        assert(out@.len() == prefix.len() + 2 * chunk_count(raw@.len(), channels as nat));
        assert(out@.subrange(0, prefix.len() as int) == prefix);
        assert forall|c: int|
            0 <= c < chunk_count(raw@.len(), channels as nat) implies #[trigger] out@[prefix.len() + 2 * c]
                == raw@[c * channels] && out@[prefix.len() + 2 * c + 1] == raw@[c * channels + 1] by {
            assert(out@[base + 2 * c] == raw@[c * channels]);
        }
        assert(appends_first_pairs(out@, prefix, raw@, channels));
        assert(appends_stereo(out@, prefix, raw@, channels));
    } else {
        assert(out@.subrange(0, base as int) =~= prefix);
    }
}

/// The chunk count computed from the quotient and remainder is `chunk_count`,
/// is at most `len`, and every chunk below it starts inside the buffer.
proof fn lemma_chunks(len: int, channels: int)
    requires
        0 <= len,
        channels >= 1,
    ensures
        ({
            let count = if len % channels == 0 { len / channels } else { len / channels + 1 };
            &&& count == chunk_count(len as nat, channels as nat)
            &&& count <= len
            &&& forall|k: int| 0 <= k < count ==> #[trigger] (k * channels) < len
        }),
{
    let q = len / channels;
    let r = len % channels;
    vstd::arithmetic::div_mod::lemma_fundamental_div_mod(len, channels);
    assert(len == channels * q + r);
    assert(0 <= r < channels);
    assert(q * channels == channels * q) by (nonlinear_arith);
    assert(0 <= q) by (nonlinear_arith)
        requires
            len == channels * q + r,
            0 <= len,
            0 <= r < channels,
    ;
    assert(q <= len) by (nonlinear_arith)
        requires
            len == channels * q + r,
            0 <= r,
            channels >= 1,
            0 <= q,
    ;
    let count = if r == 0 { q } else { q + 1 };
    if r == 0 {
        lemma_fundamental_div_mod_converse_div(len + channels - 1, channels, q, channels - 1);
    } else {
        assert((q + 1) * channels == q * channels + channels) by (nonlinear_arith);
        lemma_fundamental_div_mod_converse_div(len + channels - 1, channels, q + 1, r - 1);
        assert(channels * q >= q) by (nonlinear_arith)
            requires
                channels >= 1,
                q >= 0,
        ;
    }
    assert forall|k: int| 0 <= k < count implies #[trigger] (k * channels) < len by {
        assert(k * channels <= (count - 1) * channels) by (nonlinear_arith)
            requires
                k <= count - 1,
                channels >= 1,
        ;
        assert((count - 1) * channels == count * channels - channels) by (nonlinear_arith);
    }
}

/// Low byte of the two's-complement encoding of `s`.
pub open spec fn low_byte(s: i16) -> u8 {
    ((s as u16) % 256) as u8
}

/// High byte of the two's-complement encoding of `s`.
pub open spec fn high_byte(s: i16) -> u8 {
    ((s as u16) / 256) as u8
}

/// Law (lossless packing): the two bytes written for a sample, read back as a
/// little-endian 16-bit two's-complement number, give the sample again.
pub proof fn lemma_pcm16_round_trip(s: i16)
    ensures
        ((high_byte(s) as u16) * 256 + (low_byte(s) as u16)) as i16 == s,
{
    let u = s as u16;
    assert(u % 256 + (u / 256) * 256 == u);
    assert((u as i16) == s) by (bit_vector)
        requires
            u == s as u16,
    ;
}

/// Packs 16-bit samples into little-endian bytes, two per sample (low byte first).
pub fn pcm16_le_bytes(samples: &[i16]) -> (bytes: Vec<u8>)
    requires
        2 * samples@.len() <= usize::MAX,
    ensures
        bytes@.len() == 2 * samples@.len(),
        forall|i: int|
            0 <= i < samples@.len() ==> #[trigger] bytes@[2 * i] == low_byte(samples@[i])
                && bytes@[2 * i + 1] == high_byte(samples@[i]),
{
    let mut bytes: Vec<u8> = Vec::with_capacity(samples.len() * 2);
    let mut i: usize = 0;
    while i < samples.len()
        invariant
            i <= samples@.len(),
            2 * samples@.len() <= usize::MAX,
            bytes@.len() == 2 * i,
            forall|k: int|
                0 <= k < i ==> #[trigger] bytes@[2 * k] == low_byte(samples@[k]) && bytes@[2 * k + 1]
                    == high_byte(samples@[k]),
        decreases samples@.len() - i,
    {
        let s = samples[i];
        let u = s as u16;
        let lo = (u % 256) as u8;
        let hi = (u / 256) as u8;
        assert(lo == low_byte(s) && hi == high_byte(s));
        let ghost before = bytes@;
        bytes.push(lo);
        bytes.push(hi);
        assert forall|k: int| 0 <= k < i + 1 implies #[trigger] bytes@[2 * k] == low_byte(samples@[k])
            && bytes@[2 * k + 1] == high_byte(samples@[k]) by {
            if k < i {
                assert(bytes@[2 * k] == before[2 * k]);
                assert(bytes@[2 * k + 1] == before[2 * k + 1]);
            }
        }
        i = i + 1;
    }
    bytes
}

} // verus!
