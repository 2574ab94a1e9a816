//! Reading the `note` field of an event: drum names, pitch names with an
//! octave, and the waveform of a pitched note.

use vstd::prelude::*;
use crate::numerals::{
    decimal, is_digit, lemma_decimal_digits, lemma_digits_trimmed, parse_i32_of, parse_i32_range,
};
use crate::text::{
    all_ascii, ascii_lowercase, chars_of, is_white_space, same_text, trim, trim_end, trim_range, trim_start,
};

verus! {

// ── Pitch names ───────────────────────────────────────────────────────────────

/// `c` in upper case, where it is an ASCII letter.
pub open spec fn ascii_upper(c: char) -> char {
    if 'a' <= c <= 'z' {
        ((c as u32) - 32) as char
    } else {
        c
    }
}

/// The semitone above C of a note name, read in upper case: a letter alone,
/// or a letter with '#' (sharp) or 'B' (flat, from a lower-case 'b').
pub open spec fn semitone_of(name: Seq<char>) -> Option<int> {
    let l = ascii_upper(name[0]);
    if name.len() == 1 {
        if l == 'C' {
            Some(0)
        } else if l == 'D' {
            Some(2)
        } else if l == 'E' {
            Some(4)
        } else if l == 'F' {
            Some(5)
        } else if l == 'G' {
            Some(7)
        } else if l == 'A' {
            Some(9)
        } else if l == 'B' {
            Some(11)
        } else {
            None
        }
    } else if name[1] == '#' {
        if l == 'C' {
            Some(1)
        } else if l == 'D' {
            Some(3)
        } else if l == 'F' {
            Some(6)
        } else if l == 'G' {
            Some(8)
        } else if l == 'A' {
            Some(10)
        } else {
            None
        }
    } else {
        if l == 'D' {
            Some(1)
        } else if l == 'E' {
            Some(3)
        } else if l == 'G' {
            Some(6)
        } else if l == 'A' {
            Some(8)
        } else if l == 'B' {
            Some(10)
        } else {
            None
        }
    }
}

/// The length of the note name at the start of `t`: two characters where
/// the second is '#' or 'b', else one.
pub open spec fn name_len(t: Seq<char>) -> int {
    if t[1] == '#' || t[1] == 'b' {
        2
    } else {
        1
    }
}

/// The octave that follows the note name, as `str::parse::<i32>` reads it
/// after trimming.
pub open spec fn octave_of(t: Seq<char>) -> Option<int> {
    parse_i32_of(trim(t.skip(name_len(t))))
}

/// The MIDI number of a note such as "C4" (60), "Eb3" or "F#5": the name's
/// semitone plus 12 per octave above octave -1. `None` for text that is not
/// a note (fewer than two characters once trimmed, an unknown name, or no
/// octave number).
pub open spec fn note_midi_of(note: Seq<char>) -> Option<int> {
    let t = trim(note);
    if t.len() < 2 {
        None
    } else {
        match (octave_of(t), semitone_of(t.take(name_len(t)))) {
            (Some(o), Some(st)) => Some((o + 1) * 12 + st),
            _ => None,
        }
    }
}

/// `v` lies in the range of `i32`.
pub open spec fn fits_i32(v: int) -> bool {
    i32::MIN <= v <= i32::MAX
}

/// Reading `note` does not panic: its trimmed text does not start with a
/// non-ASCII character (a byte slice there would split a character), and
/// the MIDI arithmetic stays in the range of `i32` at every step.
pub open spec fn note_readable(note: Seq<char>) -> bool {
    let t = trim(note);
    &&& (t.len() == 0 || (t[0] as u32) < 128)
    &&& (t.len() >= 2 ==> match (octave_of(t), semitone_of(t.take(name_len(t)))) {
        (Some(o), Some(st)) => fits_i32(o + 1) && fits_i32((o + 1) * 12) && fits_i32(
            (o + 1) * 12 + st,
        ),
        _ => true,
    })
}

/// Why reading a note would panic.
#[derive(Clone, Copy, Debug, PartialEq, Eq, Structural)]
pub enum NoteFault {
    /// The trimmed note starts with a character outside ASCII.
    SplitCharacter,
    /// The MIDI number overflows `i32`.
    Overflow,
}

fn upper(c: char) -> (r: char)
    ensures
        r == ascii_upper(c),
{
    if 'a' <= c && c <= 'z' {
        ((c as u32) - 32) as u8 as char
    } else {
        c
    }
}

fn semitone(n0: char, n1: Option<char>) -> (r: Option<i32>)
    ensures
        r matches Some(v) ==> semitone_of(match n1 {
            Some(c) => seq![n0, c],
            None => seq![n0],
        }) == Some(v as int),
        r is None ==> semitone_of(match n1 {
            Some(c) => seq![n0, c],
            None => seq![n0],
        }) is None,
{
    let l = upper(n0);
    match n1 {
        None => {
            if l == 'C' {
                Some(0)
            } else if l == 'D' {
                Some(2)
            } else if l == 'E' {
                Some(4)
            } else if l == 'F' {
                Some(5)
            } else if l == 'G' {
                Some(7)
            } else if l == 'A' {
                Some(9)
            } else if l == 'B' {
                Some(11)
            } else {
                None
            }
        },
        Some(c) => {
            if c == '#' {
                if l == 'C' {
                    Some(1)
                } else if l == 'D' {
                    Some(3)
                } else if l == 'F' {
                    Some(6)
                } else if l == 'G' {
                    Some(8)
                } else if l == 'A' {
                    Some(10)
                } else {
                    None
                }
            } else {
                if l == 'D' {
                    Some(1)
                } else if l == 'E' {
                    Some(3)
                } else if l == 'G' {
                    Some(6)
                } else if l == 'A' {
                    Some(8)
                } else if l == 'B' {
                    Some(10)
                } else {
                    None
                }
            }
        },
    }
}

/// Reads a note's MIDI number, or says why the reading would panic.
pub fn read_note(note: &str) -> (r: Result<Option<i32>, NoteFault>)
    ensures
        r is Ok <==> note_readable(note@),
        r matches Ok(m) ==> match m {
            Some(v) => note_midi_of(note@) == Some(v as int),
            None => note_midi_of(note@) is None,
        },
{
    let cs = chars_of(note);
    let (a, b) = trim_range(cs.as_slice(), 0, cs.len());
    assert(cs@.subrange(0, cs@.len() as int) =~= cs@);
    let ghost t = cs@.subrange(a as int, b as int);
    if a < b && cs[a] as u32 >= 128 {
        return Err(NoteFault::SplitCharacter);
    }
    if b - a < 2 {
        return Ok(None);
    }
    let two = cs[a + 1] == '#' || cs[a + 1] == 'b';
    let rest = if two {
        a + 2
    } else {
        a + 1
    };
    let (c, d) = trim_range(cs.as_slice(), rest, b);
    proof {
        assert(t[1] == cs@[a + 1]);
        assert(cs@.subrange(rest as int, b as int) =~= t.skip(name_len(t)));
    }
    let octave = match parse_i32_range(cs.as_slice(), c, d) {
        Some(o) => o,
        None => return Ok(None),
    };
    let n1 = if two {
        Some(cs[a + 1])
    } else {
        None
    };
    proof {
        let nm = t.take(name_len(t));
        if two {
            assert(nm =~= seq![cs@[a as int], cs@[a + 1]]);
        } else {
            assert(nm =~= seq![cs@[a as int]]);
        }
    }
    let st = match semitone(cs[a], n1) {
        Some(v) => v,
        None => return Ok(None),
    };
    if octave == i32::MAX {
        return Err(NoteFault::Overflow);
    }
    let o1 = octave + 1;
    if o1 > 178956970 || o1 < -178956970 {
        return Err(NoteFault::Overflow);
    }
    let base = o1 * 12;
    if base > i32::MAX - st {
        return Err(NoteFault::Overflow);
    }
    Ok(Some(base + st))
}

/// The MIDI number of a note (see `note_midi_of`): C4 is 60, A4 is 69.
pub fn note_to_midi(note: &str) -> (r: Option<i32>)
    requires
        note_readable(note@),
    ensures
        r matches Some(v) ==> note_midi_of(note@) == Some(v as int),
        r is None ==> note_midi_of(note@) is None,
{
    match read_note(note) {
        Ok(m) => m,
        Err(_) => None,
    }
}

// ── Drums and waveforms ──────────────────────────────────────────────────────

/// The lower-case form of a string, as `str::to_lowercase` gives it (by the
/// Unicode Lowercase mapping).
pub uninterp spec fn lowercase_of(s: Seq<char>) -> Seq<char>;

/// std's `str::to_lowercase`: the result is named `lowercase_of` of the
/// argument. Of the Unicode mapping only its ASCII part is stated: an ASCII
/// string lower-cases letter by letter, 'A'..='Z' to 'a'..='z', everything
/// else unchanged (Unicode's Lowercase mapping of the ASCII block).
#[verifier::external_body]
fn to_lowercase(s: &str) -> (r: String)
    ensures
        r@ == lowercase_of(s@),
        all_ascii(s@) ==> r@ == ascii_lowercase(s@),
{
    s.to_lowercase()
}

/// A synthesized drum sound.
#[derive(Clone, Copy, Debug, PartialEq, Eq, Structural)]
pub enum Drum {
    Kick,
    Snare,
    Hat,
    Clap,
}

/// The drum that a lower-case note name calls for: "kick"/"bd",
/// "snare"/"sd", "hat"/"hh"/"hihat"/"openhat"/"oh", "clap"/"cp".
pub open spec fn drum_named(lower: Seq<char>) -> Option<Drum> {
    if lower == "kick"@ || lower == "bd"@ {
        Some(Drum::Kick)
    } else if lower == "snare"@ || lower == "sd"@ {
        Some(Drum::Snare)
    } else if lower == "hat"@ || lower == "hh"@ || lower == "hihat"@ || lower == "openhat"@
        || lower == "oh"@ {
        Some(Drum::Hat)
    } else if lower == "clap"@ || lower == "cp"@ {
        Some(Drum::Clap)
    } else {
        None
    }
}

/// Law: the drum names. A lower-case note calls for the kick exactly when
/// it is "kick" or "bd", the snare exactly for "snare" or "sd", the hi-hat
/// exactly for "hat", "hh", "hihat", "openhat" or "oh", and the clap exactly
/// for "clap" or "cp"; any other note calls for no drum.
pub proof fn law_drum_names(lower: Seq<char>)
    ensures
        drum_named(lower) == Some(Drum::Kick) <==> (lower == "kick"@ || lower == "bd"@),
        drum_named(lower) == Some(Drum::Snare) <==> (lower == "snare"@ || lower == "sd"@),
        drum_named(lower) == Some(Drum::Hat) <==> (lower == "hat"@ || lower == "hh"@ || lower
            == "hihat"@ || lower == "openhat"@ || lower == "oh"@),
        drum_named(lower) == Some(Drum::Clap) <==> (lower == "clap"@ || lower == "cp"@),
{
    reveal_strlit("kick");
    reveal_strlit("bd");
    reveal_strlit("snare");
    reveal_strlit("sd");
    reveal_strlit("hat");
    reveal_strlit("hh");
    reveal_strlit("hihat");
    reveal_strlit("openhat");
    reveal_strlit("oh");
    reveal_strlit("clap");
    reveal_strlit("cp");
    let k = "kick"@;
    let sn = "snare"@;
    let h = "hat"@;
    let c = "clap"@;
    assert(k[0] != h[0] && k[0] != c[0]);
    assert("bd"@[0] != "hh"@[0] && "bd"@[0] != "oh"@[0] && "bd"@[0] != "cp"@[0] && "bd"@[0] != "sd"@[0]);
    assert("sd"@[0] != "hh"@[0] && "sd"@[0] != "oh"@[0] && "sd"@[0] != "cp"@[0]);
    assert("hh"@[0] != "cp"@[0] && "oh"@[0] != "cp"@[0]);
    assert(sn[0] != "hihat"@[0] && sn[0] != "openhat"@[0]);
    assert(h[0] != c[0] && h[0] != k[0]);
}

/// The drum that an already lower-cased note name calls for.
pub fn drum_of_lowercase(lower: &str) -> (r: Option<Drum>)
    ensures
        r == drum_named(lower@),
{
    if same_text(lower, "kick") || same_text(lower, "bd") {
        Some(Drum::Kick)
    } else if same_text(lower, "snare") || same_text(lower, "sd") {
        Some(Drum::Snare)
    } else if same_text(lower, "hat") || same_text(lower, "hh") || same_text(lower, "hihat")
        || same_text(lower, "openhat") || same_text(lower, "oh") {
        Some(Drum::Hat)
    } else if same_text(lower, "clap") || same_text(lower, "cp") {
        Some(Drum::Clap)
    } else {
        None
    }
}

/// The drum that a note names, compared in lower case; for an ASCII note,
/// letter case makes no difference.
pub fn drum_of(note: &str) -> (r: Option<Drum>)
    ensures
        r == drum_named(lowercase_of(note@)),
        all_ascii(note@) ==> r == drum_named(ascii_lowercase(note@)),
{
    let lower = to_lowercase(note);
    drum_of_lowercase(lower.as_str())
}

/// The oscillator shape of a pitched note.
#[derive(Clone, Copy, Debug, PartialEq, Eq, Structural)]
pub enum Waveform {
    Sine,
    Square,
    Sawtooth,
    Triangle,
}

/// The waveform a `wave` field names: "square"/"sq", "sawtooth"/"saw",
/// "triangle"/"tri"; a sine for "sine", anything else, or no field at all.
pub open spec fn waveform_named(wave: Option<Seq<char>>) -> Waveform {
    match wave {
        Some(w) => if w == "square"@ || w == "sq"@ {
            Waveform::Square
        } else if w == "sawtooth"@ || w == "saw"@ {
            Waveform::Sawtooth
        } else if w == "triangle"@ || w == "tri"@ {
            Waveform::Triangle
        } else {
            Waveform::Sine
        },
        None => Waveform::Sine,
    }
}

/// Law: the waveform names. A `wave` field calls for a square wave exactly
/// when it is "square" or "sq", a sawtooth exactly for "sawtooth" or "saw",
/// a triangle exactly for "triangle" or "tri"; any other field, and no
/// field at all, gives a sine.
pub proof fn law_waveform_names(wave: Option<Seq<char>>)
    ensures
        waveform_named(wave) == Waveform::Square <==> (wave == Some("square"@) || wave == Some(
            "sq"@,
        )),
        waveform_named(wave) == Waveform::Sawtooth <==> (wave == Some("sawtooth"@) || wave == Some(
            "saw"@,
        )),
        waveform_named(wave) == Waveform::Triangle <==> (wave == Some("triangle"@) || wave == Some(
            "tri"@,
        )),
        wave is None ==> waveform_named(wave) == Waveform::Sine,
{
    reveal_strlit("square");
    reveal_strlit("sq");
    reveal_strlit("sawtooth");
    reveal_strlit("saw");
    reveal_strlit("triangle");
    reveal_strlit("tri");
    assert("square"@[1] != "sawtooth"@[1]);
    assert("sq"@[1] != "sawtooth"@[1]);
    assert("sq"@[0] != "tri"@[0] && "saw"@[0] != "tri"@[0]);
    assert("square"@[0] != "triangle"@[0] && "sawtooth"@[0] != "triangle"@[0]);
}

/// The view of an optional string.
pub open spec fn opt_view(s: Option<&str>) -> Option<Seq<char>> {
    match s {
        Some(t) => Some(t@),
        None => None,
    }
}

/// The waveform of a pitched note from its optional `wave` field.
pub fn waveform_of(wave: Option<&str>) -> (r: Waveform)
    ensures
        r == waveform_named(opt_view(wave)),
{
    match wave {
        Some(w) => if same_text(w, "square") || same_text(w, "sq") {
            Waveform::Square
        } else if same_text(w, "sawtooth") || same_text(w, "saw") {
            Waveform::Sawtooth
        } else if same_text(w, "triangle") || same_text(w, "tri") {
            Waveform::Triangle
        } else {
            Waveform::Sine
        },
        None => Waveform::Sine,
    }
}

/// What an event sounds as.
#[derive(Clone, Copy, Debug, PartialEq, Eq, Structural)]
pub enum Voice {
    /// A synthesized drum.
    Drum(Drum),
    /// An oscillator at the pitch of a MIDI note.
    Tone { midi: i32, wave: Waveform },
    /// Silence, for a note that is neither a drum nor a pitch.
    Rest,
}

/// The voice of an event with note `note` and wave field `wave`, given the
/// lower-case form of the note: a drum where the lower-case note names one,
/// else a tone where the note has a pitch, else a rest.
pub open spec fn voice_named(note: Seq<char>, lower: Seq<char>, wave: Option<Seq<char>>) -> Voice {
    match drum_named(lower) {
        Some(d) => Voice::Drum(d),
        None => match note_midi_of(note) {
            Some(m) => Voice::Tone { midi: m as i32, wave: waveform_named(wave) },
            None => Voice::Rest,
        },
    }
}

/// Reading the event does not panic: a drum name is never parsed as a
/// pitch, and any other note is readable.
pub open spec fn voice_readable(note: Seq<char>, lower: Seq<char>) -> bool {
    drum_named(lower) is Some || note_readable(note)
}

/// The voice of an event with note `note`, whose lower-case form is
/// `lower`, and wave field `wave` (see `voice_named`); or why reading the
/// note would panic.
pub fn decide_voice(note: &str, lower: &str, wave: Option<&str>) -> (r: Result<Voice, NoteFault>)
    ensures
        r is Ok <==> voice_readable(note@, lower@),
        r matches Ok(v) ==> v == voice_named(note@, lower@, opt_view(wave)),
{
    match drum_of_lowercase(lower) {
        Some(d) => Ok(Voice::Drum(d)),
        None => match read_note(note) {
            Ok(Some(m)) => Ok(Voice::Tone { midi: m, wave: waveform_of(wave) }),
            Ok(None) => Ok(Voice::Rest),
            Err(e) => Err(e),
        },
    }
}

/// The voice of an event (see `voice_named`), or why reading it would panic.
/// For an ASCII note, drum names match in either letter case.
pub fn read_voice(note: &str, wave: Option<&str>) -> (r: Result<Voice, NoteFault>)
    ensures
        r is Ok <==> voice_readable(note@, lowercase_of(note@)),
        r matches Ok(v) ==> v == voice_named(note@, lowercase_of(note@), opt_view(wave)),
        all_ascii(note@) ==> (r is Ok <==> voice_readable(note@, ascii_lowercase(note@))),
        all_ascii(note@) ==> (r matches Ok(v) ==> v == voice_named(
            note@,
            ascii_lowercase(note@),
            opt_view(wave),
        )),
{
    let lower = to_lowercase(note);
    decide_voice(note, lower.as_str(), wave)
}


/// Law: a natural note name followed by an octave in decimal reads as 12
/// semitones per octave above octave -1, plus the name's semitone: each
/// octave up is 12 MIDI numbers up, and C4 is 60.
pub proof fn law_note_octaves(letter: char, octave: nat)
    requires
        semitone_of(seq![letter]) is Some,
        octave <= i32::MAX,
    ensures
        note_midi_of(seq![letter] + decimal(octave)) == Some(
            (octave + 1) * 12 + semitone_of(seq![letter]).unwrap(),
        ),
{
    lemma_decimal_digits(octave);
    let d = decimal(octave);
    lemma_digits_trimmed(d);
    let s = seq![letter] + d;
    assert(s[0] == letter);
    assert(s[1] == d[0]);
    assert(is_digit(d[0]));
    assert(s.last() == d.last());
    assert(is_digit(d.last()));
    assert(!is_white_space(letter));
    assert(trim_start(s) == s);
    assert(trim_end(s) == s);
    assert(s.skip(1) =~= d);
    assert(s.take(1) =~= seq![letter]);
    assert(parse_i32_of(d) == Some(octave as int));
}

/// Law: the natural note names. In either letter case, C, D, E, F, G, A
/// and B lie 0, 2, 4, 5, 7, 9 and 11 semitones above C, so a natural note
/// with an octave reads as 12 per octave above octave -1 plus that many
/// (C4 is 60, E4 is 64, A4 is 69).
pub proof fn law_natural_notes(octave: nat)
    requires
        octave <= i32::MAX,
    ensures
        note_midi_of(seq!['C'] + decimal(octave)) == Some(((octave + 1) * 12) as int),
        note_midi_of(seq!['D'] + decimal(octave)) == Some(((octave + 1) * 12 + 2) as int),
        note_midi_of(seq!['E'] + decimal(octave)) == Some(((octave + 1) * 12 + 4) as int),
        note_midi_of(seq!['F'] + decimal(octave)) == Some(((octave + 1) * 12 + 5) as int),
        note_midi_of(seq!['G'] + decimal(octave)) == Some(((octave + 1) * 12 + 7) as int),
        note_midi_of(seq!['A'] + decimal(octave)) == Some(((octave + 1) * 12 + 9) as int),
        note_midi_of(seq!['B'] + decimal(octave)) == Some(((octave + 1) * 12 + 11) as int),
        note_midi_of(seq!['c'] + decimal(octave)) == Some(((octave + 1) * 12) as int),
        note_midi_of(seq!['d'] + decimal(octave)) == Some(((octave + 1) * 12 + 2) as int),
        note_midi_of(seq!['e'] + decimal(octave)) == Some(((octave + 1) * 12 + 4) as int),
        note_midi_of(seq!['f'] + decimal(octave)) == Some(((octave + 1) * 12 + 5) as int),
        note_midi_of(seq!['g'] + decimal(octave)) == Some(((octave + 1) * 12 + 7) as int),
        note_midi_of(seq!['a'] + decimal(octave)) == Some(((octave + 1) * 12 + 9) as int),
        note_midi_of(seq!['b'] + decimal(octave)) == Some(((octave + 1) * 12 + 11) as int),
{
    law_note_octaves('C', octave);
    law_note_octaves('D', octave);
    law_note_octaves('E', octave);
    law_note_octaves('F', octave);
    law_note_octaves('G', octave);
    law_note_octaves('A', octave);
    law_note_octaves('B', octave);
    law_note_octaves('c', octave);
    law_note_octaves('d', octave);
    law_note_octaves('e', octave);
    law_note_octaves('f', octave);
    law_note_octaves('g', octave);
    law_note_octaves('a', octave);
    law_note_octaves('b', octave);
}

/// Law: the sharp and flat names. C#, D#, F#, G#, A# lie one semitone
/// above C, D, F, G, A, and Db, Eb, Gb, Ab, Bb one below D, E, G, A, B.
pub proof fn law_sharp_flat_notes(octave: nat)
    requires
        octave <= i32::MAX,
    ensures
        note_midi_of(seq!['C', '#'] + decimal(octave)) == Some(((octave + 1) * 12 + 1) as int),
        note_midi_of(seq!['D', '#'] + decimal(octave)) == Some(((octave + 1) * 12 + 3) as int),
        note_midi_of(seq!['F', '#'] + decimal(octave)) == Some(((octave + 1) * 12 + 6) as int),
        note_midi_of(seq!['G', '#'] + decimal(octave)) == Some(((octave + 1) * 12 + 8) as int),
        note_midi_of(seq!['A', '#'] + decimal(octave)) == Some(((octave + 1) * 12 + 10) as int),
        note_midi_of(seq!['D', 'b'] + decimal(octave)) == Some(((octave + 1) * 12 + 1) as int),
        note_midi_of(seq!['E', 'b'] + decimal(octave)) == Some(((octave + 1) * 12 + 3) as int),
        note_midi_of(seq!['G', 'b'] + decimal(octave)) == Some(((octave + 1) * 12 + 6) as int),
        note_midi_of(seq!['A', 'b'] + decimal(octave)) == Some(((octave + 1) * 12 + 8) as int),
        note_midi_of(seq!['B', 'b'] + decimal(octave)) == Some(((octave + 1) * 12 + 10) as int),
{
    law_note_accidentals('C', '#', octave);
    law_note_accidentals('D', '#', octave);
    law_note_accidentals('F', '#', octave);
    law_note_accidentals('G', '#', octave);
    law_note_accidentals('A', '#', octave);
    law_note_accidentals('D', 'b', octave);
    law_note_accidentals('E', 'b', octave);
    law_note_accidentals('G', 'b', octave);
    law_note_accidentals('A', 'b', octave);
    law_note_accidentals('B', 'b', octave);
}

/// Law: a note name with a sharp ('#') or flat ('b') followed by an octave
/// in decimal reads as 12 semitones per octave above octave -1, plus the
/// name's semitone.
pub proof fn law_note_accidentals(letter: char, accidental: char, octave: nat)
    requires
        accidental == '#' || accidental == 'b',
        semitone_of(seq![letter, accidental]) is Some,
        octave <= i32::MAX,
    ensures
        note_midi_of(seq![letter, accidental] + decimal(octave)) == Some(
            (octave + 1) * 12 + semitone_of(seq![letter, accidental]).unwrap(),
        ),
{
    lemma_decimal_digits(octave);
    let d = decimal(octave);
    lemma_digits_trimmed(d);
    let s = seq![letter, accidental] + d;
    assert(s[0] == letter);
    assert(s[1] == accidental);
    assert(s.last() == d.last());
    assert(is_digit(d.last()));
    assert(!is_white_space(letter));
    assert(trim_start(s) == s);
    assert(trim_end(s) == s);
    assert(s.skip(2) =~= d);
    assert(s.take(2) =~= seq![letter, accidental]);
    assert(parse_i32_of(d) == Some(octave as int));
}

/// Law: the sharp of a note and the flat of the next note up sound alike
/// (C# and Db, D# and Eb, F# and Gb, G# and Ab, A# and Bb), and a sharp is
/// one semitone above its natural note.
pub proof fn law_sharp_flat_agree(octave: nat)
    requires
        octave <= i32::MAX,
    ensures
        note_midi_of(seq!['C', '#'] + decimal(octave)) == note_midi_of(seq!['D', 'b'] + decimal(octave)),
        note_midi_of(seq!['D', '#'] + decimal(octave)) == note_midi_of(seq!['E', 'b'] + decimal(octave)),
        note_midi_of(seq!['F', '#'] + decimal(octave)) == note_midi_of(seq!['G', 'b'] + decimal(octave)),
        note_midi_of(seq!['G', '#'] + decimal(octave)) == note_midi_of(seq!['A', 'b'] + decimal(octave)),
        note_midi_of(seq!['A', '#'] + decimal(octave)) == note_midi_of(seq!['B', 'b'] + decimal(octave)),
        note_midi_of(seq!['C', '#'] + decimal(octave)).unwrap() == note_midi_of(seq!['C'] + decimal(octave)).unwrap() + 1,
        note_midi_of(seq!['F', '#'] + decimal(octave)).unwrap() == note_midi_of(seq!['F'] + decimal(octave)).unwrap() + 1,
{
    law_note_accidentals('C', '#', octave);
    law_note_accidentals('D', 'b', octave);
    law_note_accidentals('D', '#', octave);
    law_note_accidentals('E', 'b', octave);
    law_note_accidentals('F', '#', octave);
    law_note_accidentals('G', 'b', octave);
    law_note_accidentals('G', '#', octave);
    law_note_accidentals('A', 'b', octave);
    law_note_accidentals('A', '#', octave);
    law_note_accidentals('B', 'b', octave);
    law_note_octaves('C', octave);
    law_note_octaves('F', octave);
}

} // verus!
