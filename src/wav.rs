//! RIFF/WAV framing of 16 kHz mono PCM16 audio, and its reading back.

use vstd::prelude::*;

verus! {

/// Sample rate of the framed audio.
pub const SAMPLE_RATE_HZ: u32 = 16_000;

/// Length of the canonical header.
pub const WAV_HEADER_LEN: usize = 44;

/// Little-endian bytes of `v`.
pub open spec fn le16(v: u16) -> Seq<u8> {
    seq![(v & 0xff) as u8, (v >> 8u16) as u8]
}

/// Little-endian bytes of `v`.
pub open spec fn le32(v: u32) -> Seq<u8> {
    seq![(v & 0xff) as u8, ((v >> 8u32) & 0xff) as u8, ((v >> 16u32) & 0xff) as u8, (v >> 24u32) as u8]
}

/// The PCM16 little-endian bytes of `samples`.
pub open spec fn pcm_bytes(samples: Seq<i16>) -> Seq<u8>
    decreases samples.len(),
{
    if samples.len() == 0 {
        seq![]
    } else {
        pcm_bytes(samples.drop_last()) + le16(#[verifier::truncate] (samples.last() as u16))
    }
}

/// The sample in the two little-endian bytes `lo`, `hi`.
pub open spec fn sample_of(lo: u8, hi: u8) -> i16 {
    #[verifier::truncate]
    (((lo as u16) | ((hi as u16) << 8u16)) as i16)
}

/// The samples of PCM16 little-endian `bytes` (of even length).
pub open spec fn pcm_samples(bytes: Seq<u8>) -> Seq<i16>
    decreases bytes.len(),
{
    if bytes.len() < 2 {
        seq![]
    } else {
        pcm_samples(bytes.subrange(0, bytes.len() - 2)).push(
            sample_of(bytes[bytes.len() - 2], bytes[bytes.len() - 1]),
        )
    }
}

/// The 44-byte header for `data_size` bytes of 16 kHz mono PCM16: `RIFF`,
/// file size `data_size + 36`, `WAVE`, `fmt ` of length 16, format 1 (PCM),
/// 1 channel, the rate, byte rate `rate * 2`, block align 2, 16 bits,
/// `data`, `data_size`.
pub open spec fn wav_header(data_size: u32) -> Seq<u8> {
    seq![0x52u8, 0x49u8, 0x46u8, 0x46u8] + le32((data_size + 36) as u32) + seq![
        0x57u8,
        0x41u8,
        0x56u8,
        0x45u8,
        0x66u8,
        0x6du8,
        0x74u8,
        0x20u8,
    ] + le32(16) + le16(1) + le16(1) + le32(SAMPLE_RATE_HZ) + le32(32_000) + le16(2) + le16(16)
        + seq![0x64u8, 0x61u8, 0x74u8, 0x61u8] + le32(data_size)
}

/// The WAV file of `samples`.
pub open spec fn wav_encoding(samples: Seq<i16>) -> Seq<u8> {
    wav_header((2 * samples.len()) as u32) + pcm_bytes(samples)
}

/// Largest number of samples whose file sizes fit the header's 32-bit fields.
pub const MAX_WAV_SAMPLES: usize = 2_147_483_629;

/// The samples of a WAV file in the canonical form that [`wav_from_pcm`]
/// writes, or `None` for any other bytes.
pub open spec fn wav_samples(bytes: Seq<u8>) -> Option<Seq<i16>> {
    if bytes.len() >= WAV_HEADER_LEN && (bytes.len() - WAV_HEADER_LEN) % 2 == 0 && bytes.len()
        - WAV_HEADER_LEN <= 2 * MAX_WAV_SAMPLES && bytes.subrange(0, WAV_HEADER_LEN as int)
        == wav_header((bytes.len() - WAV_HEADER_LEN) as u32) {
        Some(pcm_samples(bytes.subrange(WAV_HEADER_LEN as int, bytes.len() as int)))
    } else {
        None
    }
}

fn push_le16(out: &mut Vec<u8>, v: u16)
    ensures
        final(out)@ == old(out)@ + le16(v),
{
    out.push((v & 0xff) as u8);
    out.push((v >> 8) as u8);
    assert(final(out)@ =~= old(out)@ + le16(v));
}

fn push_le32(out: &mut Vec<u8>, v: u32)
    ensures
        final(out)@ == old(out)@ + le32(v),
{
    out.push((v & 0xff) as u8);
    out.push(((v >> 8) & 0xff) as u8);
    out.push(((v >> 16) & 0xff) as u8);
    out.push((v >> 24) as u8);
    assert(final(out)@ =~= old(out)@ + le32(v));
}

fn push_tag(out: &mut Vec<u8>, a: u8, b: u8, c: u8, d: u8)
    ensures
        final(out)@ == old(out)@ + seq![a, b, c, d],
{
    out.push(a);
    out.push(b);
    out.push(c);
    out.push(d);
    assert(final(out)@ =~= old(out)@ + seq![a, b, c, d]);
}

/// Frame PCM16 samples as a 16 kHz mono WAV file: the canonical 44-byte
/// header, then each sample in little-endian order. `None` when the sizes do
/// not fit the header's 32-bit fields.
pub fn wav_from_pcm(samples: &[i16]) -> (r: Option<Vec<u8>>)
    ensures
        r is Some <==> samples@.len() <= MAX_WAV_SAMPLES,
        r matches Some(b) ==> b@ == wav_encoding(samples@),
{
    if samples.len() > MAX_WAV_SAMPLES {
        return None;
    }
    let data_size = (2 * samples.len()) as u32;
    let mut wav: Vec<u8> = Vec::new();
    push_tag(&mut wav, 0x52, 0x49, 0x46, 0x46);
    push_le32(&mut wav, data_size + 36);
    push_tag(&mut wav, 0x57, 0x41, 0x56, 0x45);
    push_tag(&mut wav, 0x66, 0x6d, 0x74, 0x20);
    push_le32(&mut wav, 16);
    push_le16(&mut wav, 1);
    push_le16(&mut wav, 1);
    push_le32(&mut wav, SAMPLE_RATE_HZ);
    push_le32(&mut wav, SAMPLE_RATE_HZ * 2);
    push_le16(&mut wav, 2);
    push_le16(&mut wav, 16);
    push_tag(&mut wav, 0x64, 0x61, 0x74, 0x61);
    push_le32(&mut wav, data_size);
    assert(wav@ =~= wav_header(data_size));
    let ghost header = wav@;
    let mut i: usize = 0;
    while i < samples.len()
        invariant
            i <= samples@.len(),
            wav@ == header + pcm_bytes(samples@.subrange(0, i as int)),
        decreases samples@.len() - i,
    {
        let ghost prev = wav@;
        push_le16(&mut wav, #[verifier::truncate] (samples[i] as u16));
        assert(samples@.subrange(0, i + 1).drop_last() =~= samples@.subrange(0, i as int));
        assert(wav@ =~= header + pcm_bytes(samples@.subrange(0, i + 1)));
        i = i + 1;
    }
    assert(samples@.subrange(0, samples@.len() as int) =~= samples@);
    Some(wav)
}

/// Read back the samples of a WAV file in the canonical form that
/// [`wav_from_pcm`] writes; `None` for any other bytes.
pub fn pcm_from_wav(bytes: &[u8]) -> (r: Option<Vec<i16>>)
    ensures
        r matches Some(s) ==> wav_samples(bytes@) == Some(s@),
        r is None ==> wav_samples(bytes@) is None,
{
    if bytes.len() < WAV_HEADER_LEN {
        return None;
    }
    let data_len = bytes.len() - WAV_HEADER_LEN;
    if data_len % 2 != 0 || data_len > 2 * MAX_WAV_SAMPLES {
        return None;
    }
    let data_size = data_len as u32;
    let mut expected: Vec<u8> = Vec::new();
    push_tag(&mut expected, 0x52, 0x49, 0x46, 0x46);
    push_le32(&mut expected, data_size + 36);
    push_tag(&mut expected, 0x57, 0x41, 0x56, 0x45);
    push_tag(&mut expected, 0x66, 0x6d, 0x74, 0x20);
    push_le32(&mut expected, 16);
    push_le16(&mut expected, 1);
    push_le16(&mut expected, 1);
    push_le32(&mut expected, SAMPLE_RATE_HZ);
    push_le32(&mut expected, SAMPLE_RATE_HZ * 2);
    push_le16(&mut expected, 2);
    push_le16(&mut expected, 16);
    push_tag(&mut expected, 0x64, 0x61, 0x74, 0x61);
    push_le32(&mut expected, data_size);
    assert(expected@ =~= wav_header(data_size));
    let mut k: usize = 0;
    while k < WAV_HEADER_LEN
        invariant
            k <= WAV_HEADER_LEN <= bytes@.len(),
            expected@.len() == WAV_HEADER_LEN,
            expected@ == wav_header(data_size),
            data_size == data_len,
            data_len == bytes@.len() - WAV_HEADER_LEN,
            forall|m: int| 0 <= m < k ==> bytes@[m] == expected@[m],
        decreases WAV_HEADER_LEN - k,
    {
        if bytes[k] != expected[k] {
            assert(bytes@.subrange(0, WAV_HEADER_LEN as int)[k as int] != expected@[k as int]);
            return None;
        }
        k = k + 1;
    }
    assert(bytes@.subrange(0, WAV_HEADER_LEN as int) =~= expected@);
    let ghost data = bytes@.subrange(WAV_HEADER_LEN as int, bytes@.len() as int);
    let mut out: Vec<i16> = Vec::new();
    let mut i: usize = 0;
    while i < data_len / 2
        invariant
            data_len == bytes@.len() - WAV_HEADER_LEN,
            data_len % 2 == 0,
            i <= data_len / 2,
            bytes@.len() <= usize::MAX,
            data == bytes@.subrange(WAV_HEADER_LEN as int, bytes@.len() as int),
            out@ == pcm_samples(data.subrange(0, 2 * i)),
        decreases data_len / 2 - i,
    {
        assert(2 * i + 2 <= data_len);
        let lo = bytes[WAV_HEADER_LEN + 2 * i];
        let hi = bytes[WAV_HEADER_LEN + 2 * i + 1];
        let s: i16 = #[verifier::truncate] (((lo as u16) | ((hi as u16) << 8)) as i16);
        out.push(s);
        assert(data.subrange(0, 2 * i + 2).subrange(0, 2 * i) =~= data.subrange(0, 2 * i));
        i = i + 1;
    }
    assert(data.subrange(0, data_len as int) =~= data);
    Some(out)
}

proof fn lemma_le16_round_trip(v: i16)
    ensures
        ({
            let u = #[verifier::truncate] (v as u16);
            sample_of(le16(u)[0], le16(u)[1]) == v
        }),
{
    let u = #[verifier::truncate] (v as u16);
    assert((((u & 0xff) as u8) as u16) | ((((u >> 8u16) as u8) as u16) << 8u16) == u) by (bit_vector);
    assert(#[verifier::truncate] ((#[verifier::truncate] (v as u16)) as i16) == v) by (bit_vector);
}

proof fn lemma_pcm_round_trip(samples: Seq<i16>)
    ensures
        pcm_samples(pcm_bytes(samples)) == samples,
        pcm_bytes(samples).len() == 2 * samples.len(),
    decreases samples.len(),
{
    if samples.len() > 0 {
        let rest = samples.drop_last();
        lemma_pcm_round_trip(rest);
        let b = pcm_bytes(samples);
        assert(b.subrange(0, b.len() - 2) =~= pcm_bytes(rest));
        lemma_le16_round_trip(samples.last());
        let u = #[verifier::truncate] (samples.last() as u16);
        assert(b[b.len() - 2] == le16(u)[0] && b[b.len() - 1] == le16(u)[1]);
        assert(pcm_samples(b) =~= samples);
    }
}

/// Reading back a framed file gives exactly the samples that were framed.
pub proof fn lemma_wav_round_trip(samples: Seq<i16>)
    requires
        samples.len() <= MAX_WAV_SAMPLES,
    ensures
        wav_samples(wav_encoding(samples)) == Some(samples),
{
    lemma_pcm_round_trip(samples);
    let e = wav_encoding(samples);
    let h = wav_header((2 * samples.len()) as u32);
    assert(h.len() == WAV_HEADER_LEN);
    assert(e.subrange(0, WAV_HEADER_LEN as int) =~= h);
    assert(e.subrange(WAV_HEADER_LEN as int, e.len() as int) =~= pcm_bytes(samples));
}

} // verus!
