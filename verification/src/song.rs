//! Song mode: the prompt of each section, the tempo instruction carried from
//! the first section to the rest, and what a finished song is saved as.

use vstd::prelude::*;
use crate::llm::FORMAT_RULES;
use crate::plan::SectionPlan;
use crate::numerals::{decimal, decimal_string};
use crate::text::{join2, text_ends_with};
use crate::wav::{
    data_size_of, encode_stereo_wav, law_stereo_channels_alike, read_i16, stereo_of, wav_file, HEADER_LEN,
};
use vstd::utf8::encode_utf8;

verus! {

// ── The tempo instruction ─────────────────────────────────────────────────────

/// What the model is told about tempo: to keep the tempo of the first
/// section where that is known, else to choose one.
pub open spec fn bpm_line_of(bpm: Option<u64>) -> Seq<char> {
    match bpm {
        Some(b) => "Use exactly BPM: "@ + decimal(b as nat) + ". Do not change the tempo."@,
        None => "Choose an appropriate BPM for the style (60–160)."@,
    }
}

/// The tempo instruction for a known or unknown first tempo.
pub fn bpm_line(bpm: Option<u64>) -> (r: String)
    ensures
        r@ == bpm_line_of(bpm),
{
    match bpm {
        Some(b) => {
            let digits = decimal_string(b);
            let head = join2("Use exactly BPM: ", digits.as_str());
            join2(head.as_str(), ". Do not change the tempo.")
        },
        None => String::from_str("Choose an appropriate BPM for the style (60–160)."),
    }
}

/// The unsigned integer that the JSON text `text` holds under the top-level
/// key `key`, as serde_json reads it.
pub uninterp spec fn json_u64_member_of(text: Seq<char>, key: Seq<char>) -> Option<u64>;

/// serde_json: parses `text` as a `Value`, takes its member `key` and reads
/// it as a `u64` (`from_str`, `Value::get`, `Value::as_u64`). The result is
/// named `json_u64_member_of` of the arguments; `None` where the text does not
/// parse, is not an object with that key, or the member is not such a
/// number. Nothing more of JSON's grammar is stated.
#[verifier::external_body]
fn json_u64_member(text: &str, key: &str) -> (r: Option<u64>)
    ensures
        r == json_u64_member_of(text@, key@),
{
    match serde_json::from_str::<serde_json::Value>(text) {
        Ok(v) => match v.get(key) {
            Some(member) => member.as_u64(),
            None => None,
        },
        Err(_) => None,
    }
}

/// The tempo that the JSON of the first section states, if there is one.
pub open spec fn first_bpm_of(first_section: Option<Seq<char>>) -> Option<u64> {
    match first_section {
        Some(json) => json_u64_member_of(json, "bpm"@),
        None => None,
    }
}

/// The tempo instruction for the next section, given the JSON of the first
/// section composed so far (none before the first call).
pub fn bpm_line_for(first_section: Option<&str>) -> (r: String)
    ensures
        r@ == bpm_line_of(first_bpm_of(crate::notes::opt_view(first_section))),
{
    let bpm = match first_section {
        Some(json) => json_u64_member(json, "bpm"),
        None => None,
    };
    bpm_line(bpm)
}

// ── Section prompts ───────────────────────────────────────────────────────────

/// The prompt of one section of a song in the given style.
pub open spec fn section_prompt_of(
    style: Seq<char>,
    name: Seq<char>,
    bars: u32,
    role: Seq<char>,
    bpm_line: Seq<char>,
) -> Seq<char> {
    "Style: "@ + style + "\nSection: "@ + name + " ("@ + decimal(bars as nat) + " bars)\nRole: "@
        + role + "\n"@ + bpm_line + "\n\n"@ + FORMAT_RULES@
}

/// The prompt of one section (see `section_prompt_of`).
pub fn section_prompt(style: &str, name: &str, bars: u32, role: &str, bpm_line: &str) -> (r:
    String)
    ensures
        r@ == section_prompt_of(style@, name@, bars, role@, bpm_line@),
{
    let mut r = join2("Style: ", style);
    r.append("\nSection: ");
    r.append(name);
    r.append(" (");
    let digits = decimal_string(bars as u64);
    r.append(digits.as_str());
    r.append(" bars)\nRole: ");
    r.append(role);
    r.append("\n");
    r.append(bpm_line);
    r.append("\n\n");
    r.append(FORMAT_RULES);
    r
}

// ── Saving a song ─────────────────────────────────────────────────────────────

/// A path that names a WAV file: it ends with ".wav".
pub open spec fn is_wav_path(path: Seq<char>) -> bool {
    ".wav"@.is_suffix_of(path)
}

/// Whether the output path asks for audio rather than JSON.
pub fn is_wav_output(path: &str) -> (r: bool)
    ensures
        r == is_wav_path(path@),
{
    text_ends_with(path, ".wav")
}

/// The views of a list of (section name, section JSON) pairs.
pub open spec fn sections_view(sections: Seq<(String, String)>) -> Seq<(Seq<char>, Seq<char>)> {
    sections.map_values(|p: (String, String)| (p.0@, p.1@))
}

/// The JSON document of a song's sections, as serde_json writes it: an
/// object from section name to the section's parsed JSON (null where it does
/// not parse), pretty-printed.
pub uninterp spec fn sections_document_of(sections: Seq<(Seq<char>, Seq<char>)>) -> Seq<char>;

/// serde_json: collects the sections into a `Map` of name to parsed `Value`
/// (`from_str`, `Value::default` where that fails), then `to_string_pretty`,
/// an empty string where that fails. The result is named
/// `sections_document_of` of the sections; nothing more is stated.
#[verifier::external_body]
fn sections_document(sections: &Vec<(String, String)>) -> (r: String)
    ensures
        r@ == sections_document_of(sections_view(sections@)),
{
    let mut map = serde_json::Map::new();
    for (name, json) in sections {
        map.insert(name.clone(), serde_json::from_str(json).unwrap_or_default());
    }
    serde_json::to_string_pretty(&map).unwrap_or_default()
}

/// The samples of an arranged song: the audio of the plan's sections, one
/// after another in the order of the arrangement.
pub open spec fn arranged_samples(audio: Seq<Seq<i16>>, arrangement: Seq<usize>) -> Seq<i16>
    decreases arrangement.len(),
{
    if arrangement.len() == 0 {
        Seq::empty()
    } else {
        arranged_samples(audio, arrangement.drop_last()) + audio[arrangement.last() as int]
    }
}

/// Every entry of the arrangement names one of the sections.
pub open spec fn arrangement_in(arrangement: Seq<usize>, sections: int) -> bool {
    forall|i: int| 0 <= i < arrangement.len() ==> (#[trigger] arrangement[i]) < sections
}

/// Joins the audio of a song's sections in the order of its arrangement.
pub fn song_samples(audio: &Vec<Vec<i16>>, arrangement: &Vec<usize>) -> (r: Vec<i16>)
    requires
        arrangement_in(arrangement@, audio@.len() as int),
    ensures
        r@ == arranged_samples(audio.deep_view(), arrangement@),
{
    let ghost a = audio.deep_view();
    let mut r: Vec<i16> = Vec::new();
    let mut i: usize = 0;
    while i < arrangement.len()
        invariant
            i <= arrangement@.len(),
            a == audio.deep_view(),
            arrangement_in(arrangement@, audio@.len() as int),
            r@ == arranged_samples(a, arrangement@.take(i as int)),
        decreases arrangement@.len() - i,
    {
        let idx = arrangement[i];
        let part = &audio[idx];
        let ghost before = r@;
        assert(a[idx as int] == part@);
        let mut j: usize = 0;
        while j < part.len()
            invariant
                j <= part@.len(),
                r@ == before + part@.take(j as int),
            decreases part@.len() - j,
        {
            r.push(part[j]);
            proof {
                assert(r@ =~= before + part@.take(j + 1));
            }
            j += 1;
        }
        proof {
            let t = arrangement@.take(i + 1);
            assert(t.drop_last() =~= arrangement@.take(i as int));
            assert(t.last() == idx);
            assert(part@.take(part@.len() as int) =~= part@);
        }
        i += 1;
    }
    assert(arrangement@.take(arrangement@.len() as int) =~= arrangement@);
    r
}

/// The bytes of a song saved to `path`: for a ".wav" path, the WAV file of
/// the arranged song, each mono sample on both channels; for any other
/// path, the UTF-8 text of the JSON document holding every section's
/// pattern under its name.
pub open spec fn song_file_of(
    path: Seq<char>,
    sections: Seq<(Seq<char>, Seq<char>)>,
    audio: Seq<Seq<i16>>,
    arrangement: Seq<usize>,
) -> Seq<u8> {
    if is_wav_path(path) {
        wav_file(stereo_of(arranged_samples(audio, arrangement)))
    } else {
        encode_utf8(sections_document_of(sections))
    }
}

/// The bytes of a song saved to `path` (see `song_file_of`). `audio` holds
/// the rendered samples of the plan's sections; `arrangement` the order in
/// which they play.
pub fn song_file(
    path: &str,
    sections: &Vec<(String, String)>,
    audio: &Vec<Vec<i16>>,
    arrangement: &Vec<usize>,
) -> (r: Vec<u8>)
    requires
        is_wav_path(path@) ==> {
            let n = arranged_samples(audio.deep_view(), arrangement@).len();
            &&& arrangement_in(arrangement@, audio@.len() as int)
            &&& 4 * n <= usize::MAX
            &&& data_size_of(2 * n as int) + 36 <= u32::MAX
        },
    ensures
        r@ == song_file_of(path@, sections_view(sections@), audio.deep_view(), arrangement@),
{
    if is_wav_output(path) {
        let samples = song_samples(audio, arrangement);
        encode_stereo_wav(samples.as_slice())
    } else {
        let doc = sections_document(sections);
        vstd::slice::slice_to_vec(doc.as_str().as_bytes())
    }
}

/// A JSON text as serde_json pretty-prints it: the parsed value (null where
/// the text does not parse), written with indentation.
pub uninterp spec fn pretty_json_of(text: Seq<char>) -> Seq<char>;

/// serde_json: `from_str` into a `Value` (`Value::default` where that fails),
/// then `to_string_pretty` (the text itself where that fails). The result is
/// named `pretty_json_of` of the text; nothing more is stated.
#[verifier::external_body]
fn to_pretty_json(text: &str) -> (r: String)
    ensures
        r@ == pretty_json_of(text@),
{
    let value: serde_json::Value = serde_json::from_str(text).unwrap_or_default();
    match serde_json::to_string_pretty(&value) {
        Ok(pretty) => pretty,
        Err(_) => text.to_string(),
    }
}

/// A pattern's JSON as printed for the user (see `pretty_json_of`).
pub fn pretty_json(text: &str) -> (r: String)
    ensures
        r@ == pretty_json_of(text@),
{
    to_pretty_json(text)
}

// ── Durations ─────────────────────────────────────────────────────────────────

/// `secs` as minutes and two-digit seconds, "m:ss".
pub open spec fn clock_of(secs: nat) -> Seq<char> {
    let s = secs % 60;
    decimal(secs / 60) + ":"@ + if s < 10 {
        "0"@ + decimal(s)
    } else {
        decimal(s)
    }
}

/// `secs` as minutes and two-digit seconds (see `clock_of`).
pub fn clock(secs: u32) -> (r: String)
    ensures
        r@ == clock_of(secs as nat),
{
    let m = decimal_string((secs / 60) as u64);
    let s = secs % 60;
    let ss = decimal_string(s as u64);
    let mut r = join2(m.as_str(), ":");
    if s < 10 {
        r.append("0");
    }
    r.append(ss.as_str());
    r
}


/// The JSON of the first section composed, if any.
pub open spec fn first_json_of(composed: Seq<(String, String)>) -> Option<Seq<char>> {
    if composed.len() == 0 {
        None
    } else {
        Some(composed[0].1@)
    }
}

/// The prompt of the next call of song mode: `None` once every section of
/// the plan is composed; otherwise the prompt of the plan's next section,
/// in plan order, whose tempo line keeps the tempo of the first section
/// composed.
pub open spec fn next_section_prompt_of(
    style: Seq<char>,
    plan: Seq<SectionPlan>,
    composed: Seq<(String, String)>,
) -> Option<Seq<char>> {
    if composed.len() >= plan.len() {
        None
    } else {
        let s = plan[composed.len() as int];
        Some(
            section_prompt_of(
                style,
                s.name@,
                s.bars,
                s.role@,
                bpm_line_of(first_bpm_of(first_json_of(composed))),
            ),
        )
    }
}

/// The prompt of the next call of song mode (see `next_section_prompt_of`):
/// one call per section of the plan, in plan order, each composed section
/// (name, JSON) appended to `composed` before the next call.
pub fn next_section_prompt(style: &str, plan: &Vec<SectionPlan>, composed: &Vec<(String, String)>) -> (r:
    Option<String>)
    ensures
        match r {
            Some(p) => next_section_prompt_of(style@, plan@, composed@) == Some(p@),
            None => next_section_prompt_of(style@, plan@, composed@) is None,
        },
{
    if composed.len() >= plan.len() {
        return None;
    }
    let s = &plan[composed.len()];
    let first = if composed.len() == 0 {
        None
    } else {
        Some(composed[0].1.as_str())
    };
    let line = bpm_line_for(first);
    Some(section_prompt(style, s.name.as_str(), s.bars, s.role.as_str(), line.as_str()))
}

/// Law: song mode asks for each section of the plan once, in plan order:
/// with `k` sections composed there is a next prompt exactly when `k` is
/// less than the plan's length, and it is the prompt of section `k`; once
/// the first section is composed with tempo `b`, every later prompt locks
/// the tempo to `b`.
pub proof fn law_song_mode_prompts(
    style: Seq<char>,
    plan: Seq<SectionPlan>,
    composed: Seq<(String, String)>,
    b: u64,
)
    ensures
        next_section_prompt_of(style, plan, composed) is Some <==> composed.len() < plan.len(),
        composed.len() < plan.len() ==> next_section_prompt_of(style, plan, composed) == Some(
            section_prompt_of(
                style,
                plan[composed.len() as int].name@,
                plan[composed.len() as int].bars,
                plan[composed.len() as int].role@,
                bpm_line_of(first_bpm_of(first_json_of(composed))),
            ),
        ),
        composed.len() == 0 ==> first_bpm_of(first_json_of(composed)) is None,
        composed.len() >= 1 && json_u64_member_of(composed[0].1@, "bpm"@) == Some(b)
            ==> bpm_line_of(first_bpm_of(first_json_of(composed))) == bpm_line_of(Some(b)),
{
}

/// Law: a song saved to a ".wav" path plays the arranged sections' samples
/// in order, each on both channels.
pub proof fn law_song_wav_plays_arrangement(
    path: Seq<char>,
    sections: Seq<(Seq<char>, Seq<char>)>,
    audio: Seq<Seq<i16>>,
    arrangement: Seq<usize>,
    k: int,
)
    requires
        is_wav_path(path),
        0 <= k < arranged_samples(audio, arrangement).len(),
    ensures
        read_i16(song_file_of(path, sections, audio, arrangement), HEADER_LEN + 4 * k)
            == arranged_samples(audio, arrangement)[k],
        read_i16(song_file_of(path, sections, audio, arrangement), HEADER_LEN + 4 * k + 2)
            == arranged_samples(audio, arrangement)[k],
{
    law_stereo_channels_alike(arranged_samples(audio, arrangement), k);
}

} // verus!
