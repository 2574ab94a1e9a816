//! The WAV container: 16-bit PCM, stereo, 44.1 kHz, as the player is fed it.

use vstd::prelude::*;

verus! {

/// Samples per second.
pub const SAMPLE_RATE: u32 = 44100;

/// How many times a pattern is played back to back.
pub const LOOP_COUNT: u32 = 8;

/// Bytes in the header before the first sample.
pub const HEADER_LEN: usize = 44;

/// The bar count of a pattern that states none.
pub fn default_bars() -> (r: u32)
    ensures
        r == 4,
{
    4
}

/// `v` (0 <= v < 2^16) as two little-endian bytes.
pub open spec fn le16(v: int) -> Seq<u8> {
    seq![(v % 256) as u8, ((v / 256) % 256) as u8]
}

/// `v` (0 <= v < 2^32) as four little-endian bytes.
pub open spec fn le32(v: int) -> Seq<u8> {
    seq![
        (v % 256) as u8,
        ((v / 256) % 256) as u8,
        ((v / 65536) % 256) as u8,
        ((v / 16777216) % 256) as u8,
    ]
}

/// The four ASCII bytes of a chunk tag.
pub open spec fn tag(a: char, b: char, c: char, d: char) -> Seq<u8> {
    seq![a as u8, b as u8, c as u8, d as u8]
}

/// A signed 16-bit sample as its two's-complement little-endian bytes.
pub open spec fn sample_le(s: i16) -> Seq<u8> {
    le16(if s < 0 {
        s + 65536
    } else {
        s as int
    })
}

/// The samples' bytes, one after another.
pub open spec fn samples_le(ss: Seq<i16>) -> Seq<u8>
    decreases ss.len(),
{
    if ss.len() == 0 {
        Seq::empty()
    } else {
        samples_le(ss.drop_last()) + sample_le(ss.last())
    }
}

/// The size field of the data chunk for `n` samples: their byte count,
/// truncated to 32 bits.
pub open spec fn data_size_of(n: int) -> int {
    (2 * n) % 0x1_0000_0000
}

/// The 44-byte header of a 16-bit stereo PCM file at 44.1 kHz whose data
/// chunk holds `data_size` bytes.
pub open spec fn wav_header(data_size: int) -> Seq<u8> {
    tag('R', 'I', 'F', 'F') + le32(36 + data_size) + tag('W', 'A', 'V', 'E') + tag(
        'f',
        'm',
        't',
        ' ',
    ) + le32(16) + le16(1) + le16(2) + le32(44100) + le32(176400) + le16(4) + le16(16) + tag(
        'd',
        'a',
        't',
        'a',
    ) + le32(data_size)
}

/// The file that holds `samples` (interleaved left, right).
pub open spec fn wav_file(samples: Seq<i16>) -> Seq<u8> {
    wav_header(data_size_of(samples.len() as int)) + samples_le(samples)
}

fn push_tag(buf: &mut Vec<u8>, a: char, b: char, c: char, d: char)
    requires
        (a as u32) < 128 && (b as u32) < 128 && (c as u32) < 128 && (d as u32) < 128,
    ensures
        final(buf)@ == old(buf)@ + tag(a, b, c, d),
{
    buf.push(a as u8);
    buf.push(b as u8);
    buf.push(c as u8);
    buf.push(d as u8);
}

fn push_le16(buf: &mut Vec<u8>, v: u16)
    ensures
        final(buf)@ == old(buf)@ + le16(v as int),
{
    buf.push((v % 256) as u8);
    buf.push(((v / 256) % 256) as u8);
}

fn push_le32(buf: &mut Vec<u8>, v: u32)
    ensures
        final(buf)@ == old(buf)@ + le32(v as int),
{
    buf.push((v % 256) as u8);
    buf.push(((v / 256) % 256) as u8);
    buf.push(((v / 65536) % 256) as u8);
    buf.push(((v / 16777216) % 256) as u8);
}

/// Encodes interleaved stereo samples as a WAV file: a RIFF header (PCM,
/// 2 channels, 44100 Hz, 16 bits) followed by the samples, little-endian.
/// The size fields hold the data's byte count truncated to 32 bits.
pub fn encode_wav(samples: &[i16]) -> (r: Vec<u8>)
    requires
        2 * samples@.len() <= usize::MAX,
        data_size_of(samples@.len() as int) + 36 <= u32::MAX,
    ensures
        r@ == wav_file(samples@),
{
    let bytes: u64 = (samples.len() * 2) as u64;
    let data_size: u32 = bytes as u32;
    assert(data_size == bytes % 0x1_0000_0000) by (bit_vector)
        requires
            data_size == bytes as u32,
    ;
    let mut buf: Vec<u8> = Vec::new();
    push_tag(&mut buf, 'R', 'I', 'F', 'F');
    push_le32(&mut buf, 36 + data_size);
    push_tag(&mut buf, 'W', 'A', 'V', 'E');
    push_tag(&mut buf, 'f', 'm', 't', ' ');
    push_le32(&mut buf, 16);
    push_le16(&mut buf, 1);
    push_le16(&mut buf, 2);
    push_le32(&mut buf, SAMPLE_RATE);
    push_le32(&mut buf, SAMPLE_RATE * 4);
    push_le16(&mut buf, 4);
    push_le16(&mut buf, 16);
    push_tag(&mut buf, 'd', 'a', 't', 'a');
    push_le32(&mut buf, data_size);
    let ghost header = buf@;
    assert(header =~= wav_header(data_size as int));
    let mut i: usize = 0;
    while i < samples.len()
        invariant
            i <= samples@.len(),
            header == wav_header(data_size_of(samples@.len() as int)),
            buf@ == header + samples_le(samples@.take(i as int)),
        decreases samples@.len() - i,
    {
        let s = samples[i];
        let u: u16 = if s < 0 {
            (s as i32 + 65536) as u16
        } else {
            s as u16
        };
        push_le16(&mut buf, u);
        proof {
            let t = samples@.take(i + 1);
            assert(t.drop_last() =~= samples@.take(i as int));
            assert(t.last() == s);
        }
        i += 1;
    }
    assert(samples@.take(samples@.len() as int) =~= samples@);
    buf
}

/// Each mono sample twice, for the left and the right channel.
pub open spec fn stereo_of(mono: Seq<i16>) -> Seq<i16> {
    Seq::new(2 * mono.len(), |k: int| mono[k / 2])
}

/// Interleaves a mono signal into stereo by giving both channels each sample.
pub fn stereo_from_mono(mono: &[i16]) -> (r: Vec<i16>)
    requires
        2 * mono@.len() <= usize::MAX,
    ensures
        r@ == stereo_of(mono@),
{
    let mut r: Vec<i16> = Vec::new();
    let mut i: usize = 0;
    while i < mono.len()
        invariant
            i <= mono@.len(),
            r@.len() == 2 * i,
            forall|k: int| 0 <= k < 2 * i ==> r@[k] == mono@[k / 2],
        decreases mono@.len() - i,
    {
        r.push(mono[i]);
        r.push(mono[i]);
        i += 1;
    }
    assert(r@ =~= stereo_of(mono@));
    r
}

/// Encodes a mono signal as a stereo WAV file, both channels alike.
pub fn encode_stereo_wav(mono: &[i16]) -> (r: Vec<u8>)
    requires
        4 * mono@.len() <= usize::MAX,
        data_size_of(2 * mono@.len() as int) + 36 <= u32::MAX,
    ensures
        r@ == wav_file(stereo_of(mono@)),
{
    let stereo = stereo_from_mono(mono);
    encode_wav(stereo.as_slice())
}

/// Two little-endian bytes of `b` at `k`, as an unsigned number.
pub open spec fn read_u16(b: Seq<u8>, k: int) -> int {
    b[k] + 256 * b[k + 1]
}

/// Four little-endian bytes of `b` at `k`, as an unsigned number.
pub open spec fn read_u32(b: Seq<u8>, k: int) -> int {
    b[k] + 256 * b[k + 1] + 65536 * b[k + 2] + 16777216 * b[k + 3]
}

/// Two little-endian bytes of `b` at `k`, as a two's-complement number.
pub open spec fn read_i16(b: Seq<u8>, k: int) -> int {
    let v = read_u16(b, k);
    if v >= 32768 {
        v - 65536
    } else {
        v
    }
}

proof fn lemma_samples_le(ss: Seq<i16>)
    ensures
        samples_le(ss).len() == 2 * ss.len(),
        forall|i: int|
            0 <= i < ss.len() ==> samples_le(ss).subrange(2 * i, 2 * i + 2) == sample_le(
                #[trigger] ss[i],
            ),
    decreases ss.len(),
{
    if ss.len() > 0 {
        let init = ss.drop_last();
        lemma_samples_le(init);
        let b = samples_le(ss);
        assert forall|i: int| 0 <= i < ss.len() implies b.subrange(2 * i, 2 * i + 2) == sample_le(
            #[trigger] ss[i],
        ) by {
            if i < init.len() {
                assert(init[i] == ss[i]);
                assert(b.subrange(2 * i, 2 * i + 2) =~= samples_le(init).subrange(2 * i, 2 * i + 2));
            } else {
                assert(b.subrange(2 * i, 2 * i + 2) =~= sample_le(ss.last()));
            }
        }
    }
}

proof fn lemma_le16(v: int)
    requires
        0 <= v < 65536,
    ensures
        le16(v)[0] + 256 * le16(v)[1] == v,
{
}

proof fn lemma_le32(v: int)
    requires
        0 <= v < 0x1_0000_0000,
    ensures
        le32(v)[0] + 256 * le32(v)[1] + 65536 * le32(v)[2] + 16777216 * le32(v)[3] == v,
{
    let b0 = v % 256;
    let b1 = (v / 256) % 256;
    let b2 = (v / 65536) % 256;
    let b3 = (v / 16777216) % 256;
    assert(b0 + 256 * b1 + 65536 * b2 + 16777216 * b3 == v) by (nonlinear_arith)
        requires
            0 <= v < 0x1_0000_0000,
            b0 == v % 256,
            b1 == (v / 256) % 256,
            b2 == (v / 65536) % 256,
            b3 == (v / 16777216) % 256,
    ;
}

/// Law: a file is its 44-byte header and two bytes per sample.
pub proof fn law_wav_length(samples: Seq<i16>)
    ensures
        wav_file(samples).len() == HEADER_LEN + 2 * samples.len(),
        wav_file(samples).take(HEADER_LEN as int) == wav_header(data_size_of(samples.len() as int)),
{
    lemma_samples_le(samples);
    assert(wav_file(samples).take(HEADER_LEN as int) =~= wav_header(
        data_size_of(samples.len() as int),
    ));
}

/// Law: reading the data chunk back, sample by sample, gives the samples
/// that were encoded, in order.
pub proof fn law_wav_samples_read_back(samples: Seq<i16>, i: int)
    requires
        0 <= i < samples.len(),
    ensures
        read_i16(wav_file(samples), HEADER_LEN + 2 * i) == samples[i],
{
    lemma_samples_le(samples);
    let f = wav_file(samples);
    let h = wav_header(data_size_of(samples.len() as int));
    assert(h.len() == 44);
    let s = samples[i];
    let v: int = if s < 0 {
        s + 65536
    } else {
        s as int
    };
    assert(samples_le(samples).subrange(2 * i, 2 * i + 2) == sample_le(s));
    assert(f[44 + 2 * i] == sample_le(s)[0]);
    assert(f[44 + 2 * i + 1] == sample_le(s)[1]);
    lemma_le16(v);
}

/// Law: while the data fits in 32 bits, the RIFF size field counts the bytes
/// after it and the data size field counts the bytes after the header; the
/// format fields say 2 channels, 44100 samples per second, 16 bits each.
pub proof fn law_wav_header_fields(samples: Seq<i16>)
    requires
        2 * samples.len() + 36 <= u32::MAX,
    ensures
        read_u32(wav_file(samples), 4) == wav_file(samples).len() - 8,
        read_u32(wav_file(samples), 40) == wav_file(samples).len() - HEADER_LEN,
        read_u16(wav_file(samples), 20) == 1,
        read_u16(wav_file(samples), 22) == 2,
        read_u32(wav_file(samples), 24) == SAMPLE_RATE,
        read_u16(wav_file(samples), 34) == 16,
{
    lemma_samples_le(samples);
    let n = samples.len() as int;
    let d = data_size_of(n);
    assert(d == 2 * n);
    let f = wav_file(samples);
    let h = wav_header(d);
    assert(h.len() == 44);
    assert forall|k: int| 0 <= k < 44 implies f[k] == #[trigger] h[k] by {}
    lemma_le32(36 + d);
    lemma_le32(d);
    lemma_le32(44100);
    lemma_le16(1);
    lemma_le16(2);
    lemma_le16(16);
    assert(f[4] == le32(36 + d)[0]);
    assert(f[5] == le32(36 + d)[1]);
    assert(f[6] == le32(36 + d)[2]);
    assert(f[7] == le32(36 + d)[3]);
    assert(f[40] == le32(d)[0]);
    assert(f[41] == le32(d)[1]);
    assert(f[42] == le32(d)[2]);
    assert(f[43] == le32(d)[3]);
    assert(f[20] == le16(1)[0]);
    assert(f[21] == le16(1)[1]);
    assert(f[22] == le16(2)[0]);
    assert(f[23] == le16(2)[1]);
    assert(f[24] == le32(44100)[0]);
    assert(f[25] == le32(44100)[1]);
    assert(f[26] == le32(44100)[2]);
    assert(f[27] == le32(44100)[3]);
    assert(f[34] == le16(16)[0]);
    assert(f[35] == le16(16)[1]);
}

/// Law: in a file made from a mono signal, sample `i` is read back from
/// both the left and the right channel.
pub proof fn law_stereo_channels_alike(mono: Seq<i16>, i: int)
    requires
        0 <= i < mono.len(),
    ensures
        read_i16(wav_file(stereo_of(mono)), HEADER_LEN + 4 * i) == mono[i],
        read_i16(wav_file(stereo_of(mono)), HEADER_LEN + 4 * i + 2) == mono[i],
{
    let st = stereo_of(mono);
    assert(st[2 * i] == mono[(2 * i) / 2]);
    assert(st[2 * i + 1] == mono[(2 * i + 1) / 2]);
    law_wav_samples_read_back(st, 2 * i);
    law_wav_samples_read_back(st, 2 * i + 1);
}

} // verus!
