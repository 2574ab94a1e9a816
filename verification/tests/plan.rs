use giribeat::plan::{build_arrangement, phrase_bars, plan_sections, section_count, section_name, section_role};

#[test]
fn section_count_rounds_and_clamps() {
    assert_eq!(section_count(0), 5);
    assert_eq!(section_count(140), 5);
    assert_eq!(section_count(181), 6);
    assert_eq!(section_count(182), 7);
    assert_eq!(section_count(300), 11);
    assert_eq!(section_count(321), 11);
    assert_eq!(section_count(322), 12);
    assert_eq!(section_count(u32::MAX), 12);
}

#[test]
fn phrase_bars_round_to_four_bar_phrases() {
    assert_eq!(phrase_bars(0), 4);
    assert_eq!(phrase_bars(5), 4);
    assert_eq!(phrase_bars(6), 8);
    assert_eq!(phrase_bars(9), 8);
    assert_eq!(phrase_bars(10), 12);
    assert_eq!(phrase_bars(14), 16);
    assert_eq!(phrase_bars(1000), 16);
}

#[test]
fn plan_takes_the_first_sections_in_order() {
    let plan = plan_sections(300, 6);
    assert_eq!(plan.len(), 11);
    let names: Vec<&str> = plan.iter().map(|s| s.name.as_str()).collect();
    assert_eq!(
        names,
        vec!["intro", "verse_1", "build", "chorus_1", "verse_2", "chorus_2", "bridge", "drop", "chorus_3", "outro_1", "outro_2"]
    );
    assert!(plan.iter().all(|s| s.bars == 8));
    assert!(plan[0].role.starts_with("INTRO — Sparse and atmospheric."));
}

#[test]
fn short_song_has_five_sections() {
    let plan = plan_sections(60, 3);
    assert_eq!(plan.len(), 5);
    assert_eq!(plan[4].name, "verse_2");
    assert_eq!(plan[4].bars, 4);
}

#[test]
fn longest_plan_ends_with_end() {
    let plan = plan_sections(3600, 40);
    assert_eq!(plan.len(), 12);
    assert_eq!(plan[11].name, "end");
    assert_eq!(plan[11].role, "END — Final resolution. One or two very quiet sustained notes only. Song ending.");
    assert_eq!(plan[11].bars, 16);
}

#[test]
fn section_names_are_unique() {
    let mut names: Vec<&str> = (0..12).map(section_name).collect();
    names.sort();
    names.dedup();
    assert_eq!(names.len(), 12);
    assert!(section_role(6).starts_with("BRIDGE"));
}

#[test]
fn longer_songs_never_get_fewer_sections() {
    let mut last = 0;
    for t in (0..400).step_by(7) {
        let n = section_count(t);
        assert!(n >= last);
        last = n;
    }
}

#[test]
fn longer_plan_extends_shorter_one() {
    let short = plan_sections(150, 9);
    let long = plan_sections(250, 9);
    assert!(short.len() <= long.len());
    for (a, b) in short.iter().zip(long.iter()) {
        assert_eq!(a.name, b.name);
        assert_eq!(a.role, b.role);
        assert_eq!(a.bars, b.bars);
    }
}

#[test]
fn arrangement_repeats_verse_and_chorus_to_fill() {
    assert_eq!(build_arrangement(&vec![16; 5], 60), vec![0, 1, 2, 3, 4]);
    assert_eq!(build_arrangement(&vec![16; 5], 100), vec![0, 1, 2, 3, 1, 3, 4]);
    assert_eq!(build_arrangement(&vec![16; 5], 112), vec![0, 1, 2, 3, 1, 3, 4]);
    assert_eq!(build_arrangement(&vec![16; 5], 113), vec![0, 1, 2, 3, 1, 3, 1, 3, 4]);
    assert_eq!(build_arrangement(&vec![16; 3], 1000), vec![0, 1, 2]);
    assert_eq!(build_arrangement(&vec![0; 6], 1000), vec![0, 1, 2, 3, 4, 5]);
}

#[test]
fn arrangement_counts_each_sections_own_length() {
    // Pair of verse (10 s) and chorus (30 s); the plan takes 100 s.
    let secs = vec![20, 10, 20, 30, 20];
    assert_eq!(build_arrangement(&secs, 180), vec![0, 1, 2, 3, 1, 3, 1, 3, 4]);
    assert_eq!(build_arrangement(&secs, 181), vec![0, 1, 2, 3, 1, 3, 1, 3, 1, 3, 4]);
}

#[test]
fn full_plan_closes_with_bridge_chorus_outro() {
    let a = build_arrangement(&vec![32; 12], 440);
    assert_eq!(a, vec![0, 1, 2, 3, 1, 3, 4, 5, 7, 6, 8, 9, 10, 11]);
    let names: Vec<&str> = a.iter().map(|&i| section_name(i)).collect();
    assert_eq!(&names[9..12], &["bridge", "chorus_3", "outro_1"]);
}

#[test]
fn an_hour_long_song_is_filled() {
    let plan = plan_sections(3600, 150);
    let secs = vec![32u32; plan.len()];
    let a = build_arrangement(&secs, 3600);
    let total: u32 = a.iter().map(|&i| secs[i]).sum();
    assert!(total >= 3600 && total < 3600 + 64);
    assert_eq!(a[0], 0);
    assert_eq!(*a.last().unwrap(), plan.len() - 1);
    for i in 0..plan.len() {
        assert!(a.contains(&i));
    }
}
