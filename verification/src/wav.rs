//! The container handed to the transcription service: one track of signed
//! 16-bit samples at 44100 Hz, as a RIFF/WAVE byte sequence.

use vstd::prelude::*;

verus! {

/// Samples per second of every container written here.
pub const SAMPLE_RATE: u32 = 44100;

/// Tracks of every container written here.
pub const CHANNELS: u16 = 1;

/// Bits of one sample.
pub const BITS_PER_SAMPLE: u16 = 16;

/// Bytes before the first sample.
pub const HEADER_LEN: usize = 44;

/// The most samples whose container still has its sizes in 32 bits.
pub const MAX_SAMPLES: usize = 2147483629;

/// Why an utterance could not be encoded.
#[derive(Debug, Clone, Copy, PartialEq, Eq, Structural)]
pub enum EncodeError {
    /// More samples than the container's 32-bit size fields can describe.
    TooLong,
}

/// The two bytes of `v`, low byte first.
pub open spec fn le16(v: int) -> Seq<u8> {
    seq![(v % 256) as u8, (v / 256 % 256) as u8]
}

/// The four bytes of `v`, low byte first.
pub open spec fn le32(v: int) -> Seq<u8> {
    seq![
        (v % 256) as u8,
        (v / 256 % 256) as u8,
        (v / 65536 % 256) as u8,
        (v / 16777216 % 256) as u8,
    ]
}

/// The two bytes of one sample: its two's complement, low byte first.
pub open spec fn sample_bytes(sample: i16) -> Seq<u8> {
    le16(
        if sample >= 0 {
            sample as int
        } else {
            sample + 65536
        },
    )
}

/// The data chunk's contents: every sample in order, two bytes each.
pub open spec fn pcm_bytes(samples: Seq<i16>) -> Seq<u8>
    decreases samples.len(),
{
    if samples.len() == 0 {
        Seq::empty()
    } else {
        pcm_bytes(samples.drop_last()) + sample_bytes(samples.last())
    }
}

/// The 44 bytes in front of `data_len` bytes of samples: the RIFF chunk with
/// its size, the format chunk of integer PCM, and the data chunk's tag and
/// size.
pub open spec fn wav_header(data_len: int) -> Seq<u8> {
    seq![0x52u8, 0x49u8, 0x46u8, 0x46u8] + le32(36 + data_len) + seq![
        0x57u8,
        0x41u8,
        0x56u8,
        0x45u8,
    ] + seq![0x66u8, 0x6du8, 0x74u8, 0x20u8] + le32(16) + le16(1) + le16(CHANNELS as int) + le32(
        SAMPLE_RATE as int,
    ) + le32(SAMPLE_RATE * CHANNELS * 2) + le16(CHANNELS * 2) + le16(BITS_PER_SAMPLE as int)
        + seq![0x64u8, 0x61u8, 0x74u8, 0x61u8] + le32(data_len)
}

/// The whole container of `samples`.
pub open spec fn wav_container(samples: Seq<i16>) -> Seq<u8> {
    wav_header(2 * (samples.len() as int)) + pcm_bytes(samples)
}

/// A container is its header and two bytes for each sample.
pub proof fn lemma_container_len(samples: Seq<i16>)
    ensures
        pcm_bytes(samples).len() == 2 * samples.len(),
        wav_container(samples).len() == HEADER_LEN + 2 * samples.len(),
    decreases samples.len(),
{
    if samples.len() > 0 {
        lemma_container_len(samples.drop_last());
    }
}

fn push_tag(out: &mut Vec<u8>, a: u8, b: u8, c: u8, d: u8)
    ensures
        final(out)@ == old(out)@ + seq![a, b, c, d],
{
    out.push(a);
    out.push(b);
    out.push(c);
    out.push(d);
    assert(out@ =~= old(out)@ + seq![a, b, c, d]);
}

fn push_le16(out: &mut Vec<u8>, v: u16)
    ensures
        final(out)@ == old(out)@ + le16(v as int),
{
    out.push((v % 256) as u8);
    out.push((v / 256) as u8);
    assert(out@ =~= old(out)@ + le16(v as int));
}

fn push_le32(out: &mut Vec<u8>, v: u32)
    ensures
        final(out)@ == old(out)@ + le32(v as int),
{
    out.push((v % 256) as u8);
    out.push((v / 256 % 256) as u8);
    out.push((v / 65536 % 256) as u8);
    out.push((v / 16777216) as u8);
    assert(out@ =~= old(out)@ + le32(v as int));
}

fn push_sample(out: &mut Vec<u8>, sample: i16)
    ensures
        final(out)@ == old(out)@ + sample_bytes(sample),
{
    let wide: i32 = sample as i32;
    let unsigned: u16 = if wide >= 0 {
        wide as u16
    } else {
        (wide + 65536) as u16
    };
    push_le16(out, unsigned);
}

/// Encodes `samples` as a container, or refuses a sequence too long for one.
pub fn encode(samples: &Vec<i16>) -> (encoded: Result<Vec<u8>, EncodeError>)
    ensures
        match encoded {
            Ok(bytes) => {
                &&& samples@.len() <= MAX_SAMPLES
                &&& bytes@ == wav_container(samples@)
                &&& bytes@.len() == HEADER_LEN + 2 * samples@.len()
            },
            Err(e) => samples@.len() > MAX_SAMPLES && e == EncodeError::TooLong,
        },
{
    if samples.len() > MAX_SAMPLES {
        return Err(EncodeError::TooLong);
    }
    let data_len: u32 = (samples.len() * 2) as u32;
    let mut out: Vec<u8> = Vec::new();
    push_tag(&mut out, 0x52, 0x49, 0x46, 0x46);
    push_le32(&mut out, 36 + data_len);
    push_tag(&mut out, 0x57, 0x41, 0x56, 0x45);
    push_tag(&mut out, 0x66, 0x6d, 0x74, 0x20);
    push_le32(&mut out, 16);
    push_le16(&mut out, 1);
    push_le16(&mut out, CHANNELS);
    push_le32(&mut out, SAMPLE_RATE);
    push_le32(&mut out, SAMPLE_RATE * 2);
    push_le16(&mut out, 2);
    push_le16(&mut out, BITS_PER_SAMPLE);
    push_tag(&mut out, 0x64, 0x61, 0x74, 0x61);
    push_le32(&mut out, data_len);
    assert(out@ == wav_header(data_len as int));
    let ghost header = out@;
    let mut i: usize = 0;
    while i < samples.len()
        invariant
            i <= samples.len(),
            out@ == header + pcm_bytes(samples@.take(i as int)),
        decreases samples.len() - i,
    {
        proof {
            let next = samples@.take(i + 1);
            assert(next.drop_last() =~= samples@.take(i as int));
            assert(next.last() == samples@[i as int]);
            assert(header + pcm_bytes(next) =~= header + pcm_bytes(samples@.take(i as int))
                + sample_bytes(samples@[i as int]));
        }
        push_sample(&mut out, samples[i]);
        i += 1;
    }
    proof {
        assert(samples@.take(i as int) =~= samples@);
        lemma_container_len(samples@);
    }
    Ok(out)
}

} // verus!
