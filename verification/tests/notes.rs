use giribeat::notes::{
    drum_of, drum_of_lowercase, note_to_midi, read_note, read_voice, decide_voice, waveform_of, Drum, NoteFault, Voice,
    Waveform,
};
use giribeat::numerals::parse_i32_range;

#[test]
fn pitches_read_as_midi_numbers() {
    assert_eq!(note_to_midi("C4"), Some(60));
    assert_eq!(note_to_midi("A4"), Some(69));
    assert_eq!(note_to_midi("Eb3"), Some(51));
    assert_eq!(note_to_midi("F#5"), Some(78));
    assert_eq!(note_to_midi("C2"), Some(36));
    assert_eq!(note_to_midi("B5"), Some(83));
    assert_eq!(note_to_midi("  c4 "), Some(60));
    assert_eq!(note_to_midi("bb3"), Some(58));
    assert_eq!(note_to_midi("b3"), Some(59));
    assert_eq!(note_to_midi("C-1"), Some(0));
    assert_eq!(note_to_midi("G+2"), Some(43));
    assert_eq!(note_to_midi("D# 4"), Some(63));
}

#[test]
fn non_notes_read_as_none() {
    assert_eq!(note_to_midi(""), None);
    assert_eq!(note_to_midi("C"), None);
    assert_eq!(note_to_midi("H4"), None);
    assert_eq!(note_to_midi("E#4"), None);
    assert_eq!(note_to_midi("Cb4"), None);
    assert_eq!(note_to_midi("EB3"), None);
    assert_eq!(note_to_midi("C4x"), None);
    assert_eq!(note_to_midi("C-"), None);
    assert_eq!(note_to_midi("C99999999999"), None);
    assert_eq!(note_to_midi("kick"), None);
}

#[test]
fn panicking_notes_are_reported() {
    assert_eq!(read_note("é4"), Err(NoteFault::SplitCharacter));
    assert_eq!(read_note("C2147483647"), Err(NoteFault::Overflow));
    assert_eq!(read_note("C-178956972"), Err(NoteFault::Overflow));
    assert_eq!(read_note("C178956969"), Ok(Some(2147483640)));
    assert_eq!(read_note("G178956969"), Ok(Some(2147483647)));
    assert_eq!(read_note("B178956969"), Err(NoteFault::Overflow));
    assert_eq!(read_note("é"), Err(NoteFault::SplitCharacter));
}

#[test]
fn integers_parse_like_std() {
    let cs: Vec<char> = "-2147483648".chars().collect();
    assert_eq!(parse_i32_range(&cs, 0, cs.len()), Some(i32::MIN));
    let cs: Vec<char> = "2147483648".chars().collect();
    assert_eq!(parse_i32_range(&cs, 0, cs.len()), None);
    let cs: Vec<char> = "+007".chars().collect();
    assert_eq!(parse_i32_range(&cs, 0, cs.len()), Some(7));
    let cs: Vec<char> = "+".chars().collect();
    assert_eq!(parse_i32_range(&cs, 0, cs.len()), None);
}

#[test]
fn drums_are_named_in_any_case() {
    assert_eq!(drum_of("kick"), Some(Drum::Kick));
    assert_eq!(drum_of("BD"), Some(Drum::Kick));
    assert_eq!(drum_of("Snare"), Some(Drum::Snare));
    assert_eq!(drum_of("openhat"), Some(Drum::Hat));
    assert_eq!(drum_of("HiHat"), Some(Drum::Hat));
    assert_eq!(drum_of("cp"), Some(Drum::Clap));
    assert_eq!(drum_of("tom"), None);
    assert_eq!(drum_of(" kick"), None);
    assert_eq!(drum_of_lowercase("Kick"), None);
}

#[test]
fn waveforms_default_to_sine() {
    assert_eq!(waveform_of(None), Waveform::Sine);
    assert_eq!(waveform_of(Some("sq")), Waveform::Square);
    assert_eq!(waveform_of(Some("sawtooth")), Waveform::Sawtooth);
    assert_eq!(waveform_of(Some("tri")), Waveform::Triangle);
    assert_eq!(waveform_of(Some("noise")), Waveform::Sine);
    assert_eq!(waveform_of(Some("Square")), Waveform::Sine);
}

#[test]
fn voices_follow_the_dispatch() {
    assert_eq!(read_voice("clap", Some("square")), Ok(Voice::Drum(Drum::Clap)));
    assert_eq!(read_voice("KICK", None), Ok(Voice::Drum(Drum::Kick)));
    assert_eq!(read_voice("A4", Some("saw")), Ok(Voice::Tone { midi: 69, wave: Waveform::Sawtooth }));
    assert_eq!(read_voice("rest", None), Ok(Voice::Rest));
    assert_eq!(decide_voice("Kick", "kick", None), Ok(Voice::Drum(Drum::Kick)));
    assert_eq!(decide_voice("Kick", "Kick", None), Ok(Voice::Rest));
    assert_eq!(decide_voice("é", "é", None), Err(NoteFault::SplitCharacter));
    assert_eq!(decide_voice("C4", "c4", Some("tri")), Ok(Voice::Tone { midi: 60, wave: Waveform::Triangle }));
    assert_eq!(read_voice("é5", None), Err(NoteFault::SplitCharacter));
}

#[test]
fn sharps_and_flats_agree() {
    assert_eq!(note_to_midi("C#4"), note_to_midi("Db4"));
    assert_eq!(note_to_midi("D#2"), note_to_midi("Eb2"));
    assert_eq!(note_to_midi("F#3"), note_to_midi("Gb3"));
    assert_eq!(note_to_midi("G#5"), note_to_midi("Ab5"));
    assert_eq!(note_to_midi("A#1"), note_to_midi("Bb1"));
    assert_eq!(note_to_midi("C#4"), Some(61));
    assert_eq!(note_to_midi("C5"), Some(72));
}
