use giribeat::wav::{default_bars, encode_stereo_wav, encode_wav, stereo_from_mono, HEADER_LEN};

#[test]
fn empty_file_is_just_the_header() {
    let b = encode_wav(&[]);
    assert_eq!(b.len(), HEADER_LEN);
    assert_eq!(&b[0..4], b"RIFF");
    assert_eq!(&b[4..8], &36u32.to_le_bytes());
    assert_eq!(&b[8..16], b"WAVEfmt ");
    assert_eq!(&b[16..20], &16u32.to_le_bytes());
    assert_eq!(&b[20..22], &1u16.to_le_bytes());
    assert_eq!(&b[22..24], &2u16.to_le_bytes());
    assert_eq!(&b[24..28], &44100u32.to_le_bytes());
    assert_eq!(&b[28..32], &176400u32.to_le_bytes());
    assert_eq!(&b[32..34], &4u16.to_le_bytes());
    assert_eq!(&b[34..36], &16u16.to_le_bytes());
    assert_eq!(&b[36..40], b"data");
    assert_eq!(&b[40..44], &0u32.to_le_bytes());
}

#[test]
fn samples_follow_little_endian() {
    let s: [i16; 4] = [1, -1, i16::MAX, i16::MIN];
    let b = encode_wav(&s);
    assert_eq!(b.len(), 44 + 8);
    assert_eq!(&b[4..8], &(36u32 + 8).to_le_bytes());
    assert_eq!(&b[40..44], &8u32.to_le_bytes());
    assert_eq!(&b[44..], &[1, 0, 255, 255, 255, 127, 0, 128]);
}

#[test]
fn samples_read_back() {
    let s: Vec<i16> = vec![0, 300, -300, 12345, -32768, 32767];
    let b = encode_wav(&s);
    let back: Vec<i16> = b[44..].chunks(2).map(|c| i16::from_le_bytes([c[0], c[1]])).collect();
    assert_eq!(back, s);
}

#[test]
fn mono_is_doubled_into_stereo() {
    assert_eq!(stereo_from_mono(&[5, -7]), vec![5, 5, -7, -7]);
    let b = encode_stereo_wav(&[258]);
    assert_eq!(&b[44..], &[2, 1, 2, 1]);
}

#[test]
fn bars_default_to_four() {
    assert_eq!(default_bars(), 4);
}
