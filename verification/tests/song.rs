use giribeat::duration::{extract_duration_from_prompt, parse_duration_secs};
use giribeat::numerals::decimal_string;
use giribeat::song::{
    bpm_line, bpm_line_for, clock, is_wav_output, next_section_prompt, pretty_json, section_prompt, song_file,
    song_samples,
};
use giribeat::llm::FORMAT_RULES;
use giribeat::plan::plan_sections;

#[test]
fn tempo_line_keeps_a_known_tempo() {
    assert_eq!(bpm_line(Some(96)), "Use exactly BPM: 96. Do not change the tempo.");
    assert_eq!(bpm_line(None), "Choose an appropriate BPM for the style (60–160).");
}

#[test]
fn tempo_line_reads_the_first_section() {
    assert_eq!(bpm_line_for(None), "Choose an appropriate BPM for the style (60–160).");
    assert_eq!(bpm_line_for(Some("{\"bpm\": 128, \"events\": []}")), "Use exactly BPM: 128. Do not change the tempo.");
    assert_eq!(bpm_line_for(Some("{\"bpm\": 92.5}")), "Choose an appropriate BPM for the style (60–160).");
    assert_eq!(bpm_line_for(Some("not json")), "Choose an appropriate BPM for the style (60–160).");
}

#[test]
fn section_prompt_lists_style_section_role_and_rules() {
    let p = section_prompt("lo-fi", "intro", 8, "INTRO — quiet.", "Choose a tempo.");
    let expected = format!(
        "Style: lo-fi\nSection: intro (8 bars)\nRole: INTRO — quiet.\nChoose a tempo.\n\n{}",
        FORMAT_RULES
    );
    assert_eq!(p, expected);
}

#[test]
fn decimals_are_written_plainly() {
    assert_eq!(decimal_string(0), "0");
    assert_eq!(decimal_string(7), "7");
    assert_eq!(decimal_string(1200), "1200");
    assert_eq!(decimal_string(u64::MAX), u64::MAX.to_string());
}

#[test]
fn durations_read_in_documented_forms() {
    assert_eq!(parse_duration_secs("5m"), Some(300));
    assert_eq!(parse_duration_secs("3min"), Some(180));
    assert_eq!(parse_duration_secs("2:30"), Some(150));
    assert_eq!(parse_duration_secs("300"), Some(300));
    assert_eq!(parse_duration_secs(" 4m "), Some(240));
    assert_eq!(parse_duration_secs("0:05"), Some(5));
}

#[test]
fn other_durations_are_refused() {
    assert_eq!(parse_duration_secs(""), None);
    assert_eq!(parse_duration_secs("m"), None);
    assert_eq!(parse_duration_secs("five minutes"), None);
    assert_eq!(parse_duration_secs("2:3"), None);
    assert_eq!(parse_duration_secs("2:75"), None);
    assert_eq!(parse_duration_secs("1h"), None);
    assert_eq!(parse_duration_secs("4294967296"), None);
    assert_eq!(parse_duration_secs("71582789m"), None);
    assert_eq!(parse_duration_secs("4294967295"), Some(4294967295));
}

#[test]
fn wav_outputs_are_recognised_by_suffix() {
    assert!(is_wav_output("song.wav"));
    assert!(!is_wav_output("song.WAV"));
    assert!(!is_wav_output("song.json"));
    assert!(is_wav_output(".wav"));
}

#[test]
fn song_saved_as_json_holds_every_section() {
    let s = vec![("verse".to_string(), "{\"bpm\": 90}".to_string()), ("intro".to_string(), "{\"bars\": 4}".to_string())];
    let bytes = song_file("song.json", &s, &vec![], &vec![]);
    let text = String::from_utf8(bytes).unwrap();
    assert_eq!(text, "{\n  \"intro\": {\n    \"bars\": 4\n  },\n  \"verse\": {\n    \"bpm\": 90\n  }\n}");
    let v: serde_json::Value = serde_json::from_str(&text).unwrap();
    assert_eq!(v["verse"]["bpm"], 90);
}

#[test]
fn song_saved_as_wav_holds_the_arranged_audio() {
    let audio = vec![vec![1i16, 2], vec![-3i16]];
    let arrangement = vec![0usize, 1, 0];
    assert_eq!(song_samples(&audio, &arrangement), vec![1, 2, -3, 1, 2]);
    let bytes = song_file("song.wav", &vec![], &audio, &arrangement);
    assert_eq!(bytes.len(), 44 + 4 * 5);
    assert_eq!(&bytes[0..4], b"RIFF");
    let back: Vec<i16> = bytes[44..].chunks(2).map(|c| i16::from_le_bytes([c[0], c[1]])).collect();
    assert_eq!(back, vec![1, 1, 2, 2, -3, -3, 1, 1, 2, 2]);
}

#[test]
fn durations_are_read_from_prompts() {
    assert_eq!(extract_duration_from_prompt("3 minutes of dark ambient drone"), Some(180));
    assert_eq!(extract_duration_from_prompt("5 minutes of lo-fi hip hop"), Some(300));
    assert_eq!(extract_duration_from_prompt("a 90 second jingle"), Some(90));
    assert_eq!(extract_duration_from_prompt("2 MIN of techno"), Some(120));
    assert_eq!(extract_duration_from_prompt("10min drone"), Some(600));
    assert_eq!(extract_duration_from_prompt("a 303 acid line, 4 minutes long"), Some(240));
    assert_eq!(extract_duration_from_prompt("dark techno"), None);
    assert_eq!(extract_duration_from_prompt("5 mellow tracks"), None);
    assert_eq!(extract_duration_from_prompt("99999999999 minutes"), None);
}

#[test]
fn pretty_printing_indents_or_nulls() {
    assert_eq!(pretty_json("{\"a\":[1,2]}"), "{\n  \"a\": [\n    1,\n    2\n  ]\n}");
    assert_eq!(pretty_json("garbage"), "null");
}

#[test]
fn clock_pads_seconds() {
    assert_eq!(clock(0), "0:00");
    assert_eq!(clock(65), "1:05");
    assert_eq!(clock(600), "10:00");
    assert_eq!(clock(3599), "59:59");
}

#[test]
fn song_mode_asks_for_each_section_in_order_with_the_first_tempo() {
    let plan = plan_sections(60, 4);
    let mut composed: Vec<(String, String)> = Vec::new();
    let first = next_section_prompt("acid", &plan, &composed).unwrap();
    assert_eq!(first, section_prompt("acid", "intro", 4, &plan[0].role, &bpm_line(None)));
    composed.push(("intro".to_string(), "{\"bpm\": 124}".to_string()));
    let second = next_section_prompt("acid", &plan, &composed).unwrap();
    assert_eq!(second, section_prompt("acid", "verse_1", 4, &plan[1].role, "Use exactly BPM: 124. Do not change the tempo."));
    for i in 1..plan.len() {
        assert!(next_section_prompt("acid", &plan, &composed).unwrap().contains(&format!("Section: {} (", plan[i].name)));
        composed.push((plan[i].name.clone(), "{\"bpm\": 90}".to_string()));
    }
    assert_eq!(next_section_prompt("acid", &plan, &composed), None);
}
