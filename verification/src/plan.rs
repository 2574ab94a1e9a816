//! Song planning: how many sections a target length gets, how long each is,
//! and which sections, in order.

use vstd::prelude::*;

verus! {

/// One section of a planned song: its name, its length in bars, and the
/// instructions that tell the model what the section is for.
pub struct SectionPlan {
    pub name: String,
    pub bars: u32,
    pub role: String,
}

/// How many sections the library of sections holds.
pub const SECTION_LIBRARY_LEN: usize = 12;

/// The shortest song plan, in sections.
pub const MIN_SECTIONS: usize = 5;

/// The name of the `i`th section of the library, ordered for a natural arc.
pub open spec fn section_name_of(i: int) -> Seq<char> {
    if i == 0 {
        "intro"@
    } else if i == 1 {
        "verse_1"@
    } else if i == 2 {
        "build"@
    } else if i == 3 {
        "chorus_1"@
    } else if i == 4 {
        "verse_2"@
    } else if i == 5 {
        "chorus_2"@
    } else if i == 6 {
        "bridge"@
    } else if i == 7 {
        "drop"@
    } else if i == 8 {
        "chorus_3"@
    } else if i == 9 {
        "outro_1"@
    } else if i == 10 {
        "outro_2"@
    } else {
        "end"@
    }
}

/// The role text of the `i`th section of the library.
pub open spec fn section_role_of(i: int) -> Seq<char> {
    if i == 0 {
        "INTRO — Sparse and atmospheric. Bass and very light hi-hat only. NO melody. Low energy; slowly build anticipation. Keep the arrangement intentionally empty."@
    } else if i == 1 {
        "VERSE 1 — Full arrangement. Bass groove + lead melody + full drums (kick, snare, hat). Medium energy. Establish a clear, memorable melodic phrase. Use a consistent key throughout."@
    } else if i == 2 {
        "BUILD — Rising energy. Layer a counter-melody or arpeggio pad on top of the verse groove. Add extra percussion hits on off-beats. Tension building toward the drop."@
    } else if i == 3 {
        "CHORUS 1 — The hook. Maximum energy. Every layer at once: bass, lead melody, pads, full drums + clap. Bright, uplifting, harmonically rich. Emotional peak."@
    } else if i == 4 {
        "VERSE 2 — Same key and BPM as verse 1, but a COMPLETELY DIFFERENT melodic phrase and a varied rhythmic pattern. The song progresses; do not repeat verse 1."@
    } else if i == 5 {
        "CHORUS 2 — Hook returns. Same feel as chorus 1 but add extra percussion hits or a higher melody line to build more intensity than chorus 1."@
    } else if i == 6 {
        "BRIDGE — Contrast and tension. Strip most layers. Change the rhythmic feel, or drop the kick entirely. Sparse and unexpected — create space before the finale."@
    } else if i == 7 {
        "DROP — Minimal. Bass-heavy hypnotic groove with almost no melody. Atmospheric pads only. Stripped-back tension builder before the final rise."@
    } else if i == 8 {
        "FINAL CHORUS — Biggest moment of the entire track. Maximum intensity: all instruments at full power. Add extra layers to make it sound huge and triumphant."@
    } else if i == 9 {
        "OUTRO 1 — Begin winding down. Remove the lead melody. Only bass + light drums. Energy decreasing gradually."@
    } else if i == 10 {
        "OUTRO 2 — Very sparse. Remove drums entirely. Only bass and a soft pad fading away."@
    } else {
        "END — Final resolution. One or two very quiet sustained notes only. Song ending."@
    }
}

/// The name of the `i`th section of the library.
pub fn section_name(i: usize) -> (r: &'static str)
    requires
        i < SECTION_LIBRARY_LEN,
    ensures
        r@ == section_name_of(i as int),
{
    match i {
        0 => "intro",
        1 => "verse_1",
        2 => "build",
        3 => "chorus_1",
        4 => "verse_2",
        5 => "chorus_2",
        6 => "bridge",
        7 => "drop",
        8 => "chorus_3",
        9 => "outro_1",
        10 => "outro_2",
        _ => "end",
    }
}

/// The role text of the `i`th section of the library.
pub fn section_role(i: usize) -> (r: &'static str)
    requires
        i < SECTION_LIBRARY_LEN,
    ensures
        r@ == section_role_of(i as int),
{
    match i {
        0 => "INTRO — Sparse and atmospheric. Bass and very light hi-hat only. NO melody. Low energy; slowly build anticipation. Keep the arrangement intentionally empty.",
        1 => "VERSE 1 — Full arrangement. Bass groove + lead melody + full drums (kick, snare, hat). Medium energy. Establish a clear, memorable melodic phrase. Use a consistent key throughout.",
        2 => "BUILD — Rising energy. Layer a counter-melody or arpeggio pad on top of the verse groove. Add extra percussion hits on off-beats. Tension building toward the drop.",
        3 => "CHORUS 1 — The hook. Maximum energy. Every layer at once: bass, lead melody, pads, full drums + clap. Bright, uplifting, harmonically rich. Emotional peak.",
        4 => "VERSE 2 — Same key and BPM as verse 1, but a COMPLETELY DIFFERENT melodic phrase and a varied rhythmic pattern. The song progresses; do not repeat verse 1.",
        5 => "CHORUS 2 — Hook returns. Same feel as chorus 1 but add extra percussion hits or a higher melody line to build more intensity than chorus 1.",
        6 => "BRIDGE — Contrast and tension. Strip most layers. Change the rhythmic feel, or drop the kick entirely. Sparse and unexpected — create space before the finale.",
        7 => "DROP — Minimal. Bass-heavy hypnotic groove with almost no melody. Atmospheric pads only. Stripped-back tension builder before the final rise.",
        8 => "FINAL CHORUS — Biggest moment of the entire track. Maximum intensity: all instruments at full power. Add extra layers to make it sound huge and triumphant.",
        9 => "OUTRO 1 — Begin winding down. Remove the lead melody. Only bass + light drums. Energy decreasing gradually.",
        10 => "OUTRO 2 — Very sparse. Remove drums entirely. Only bass and a soft pad fading away.",
        _ => "END — Final resolution. One or two very quiet sustained notes only. Song ending.",
    }
}

/// `x` held between `lo` and `hi`.
pub open spec fn clamp(x: int, lo: int, hi: int) -> int {
    if x < lo {
        lo
    } else if x > hi {
        hi
    } else {
        x
    }
}

/// The number of sections for a song of `target_secs` seconds: the target
/// over 28 seconds, rounded to nearest with halves up, held to 5..=12.
pub open spec fn section_count_of(target_secs: int) -> int {
    clamp((target_secs + 14) / 28, 5, 12)
}

/// The bars of every section, from the unrounded estimate `raw`: rounded to
/// the nearest 4-bar phrase (halves up), held to 4..=16.
pub open spec fn phrase_bars_of(raw: int) -> int {
    clamp((raw + 2) / 4 * 4, 4, 16)
}

/// How many sections a song of `target_secs` seconds is planned with.
pub fn section_count(target_secs: u32) -> (r: usize)
    ensures
        r == section_count_of(target_secs as int),
        MIN_SECTIONS <= r <= SECTION_LIBRARY_LEN,
{
    if target_secs >= 322 {
        return 12;
    }
    let n = (target_secs + 14) / 28;
    if n < 5 {
        5
    } else {
        n as usize
    }
}

/// The length in bars of every section, from the estimate `raw` of bars per
/// section (target seconds over sections over seconds per bar, rounded).
pub fn phrase_bars(raw: u32) -> (r: u32)
    requires
        raw <= u32::MAX - 2,
    ensures
        r == phrase_bars_of(raw as int),
{
    let b = (raw + 2) / 4 * 4;
    if b < 4 {
        4
    } else if b > 16 {
        16
    } else {
        b
    }
}

/// The plan of a song of `target_secs` seconds: the first
/// `section_count(target_secs)` sections of the library, in order, each
/// `phrase_bars(raw_bars)` bars long, where `raw_bars` is the estimate of
/// bars per section.
pub open spec fn plans_song(plan: Seq<SectionPlan>, target_secs: int, raw_bars: int) -> bool {
    &&& plan.len() == section_count_of(target_secs)
    &&& forall|i: int|
        0 <= i < plan.len() ==> {
            &&& (#[trigger] plan[i]).name@ == section_name_of(i)
            &&& plan[i].role@ == section_role_of(i)
            &&& plan[i].bars == phrase_bars_of(raw_bars)
        }
}

/// Plans a song as a sequence of unique sections, each of which gets its
/// own composition call: as many as fit `target_secs` at about 28 seconds
/// each (5 to 12), every one `phrase_bars(raw_bars)` bars long.
pub fn plan_sections(target_secs: u32, raw_bars: u32) -> (r: Vec<SectionPlan>)
    requires
        raw_bars <= u32::MAX - 2,
    ensures
        plans_song(r@, target_secs as int, raw_bars as int),
{
    let n = section_count(target_secs);
    let bars = phrase_bars(raw_bars);
    let mut plan: Vec<SectionPlan> = Vec::new();
    let mut i: usize = 0;
    while i < n
        invariant
            n == section_count_of(target_secs as int),
            n <= SECTION_LIBRARY_LEN,
            bars == phrase_bars_of(raw_bars as int),
            i <= n,
            plan@.len() == i,
            forall|j: int|
                0 <= j < i ==> {
                    &&& (#[trigger] plan@[j]).name@ == section_name_of(j)
                    &&& plan@[j].role@ == section_role_of(j)
                    &&& plan@[j].bars == bars
                },
        decreases n - i,
    {
        let section = SectionPlan {
            name: String::from_str(section_name(i)),
            bars,
            role: String::from_str(section_role(i)),
        };
        plan.push(section);
        i += 1;
    }
    plan
}

/// Law: a plan holds at least 5 and at most 12 sections.
pub proof fn law_plan_length_bounded(plan: Seq<SectionPlan>, target_secs: int, raw_bars: int)
    requires
        plans_song(plan, target_secs, raw_bars),
    ensures
        MIN_SECTIONS <= plan.len() <= SECTION_LIBRARY_LEN,
{
}

/// Law: a longer target never gives fewer sections.
pub proof fn law_section_count_monotone(t1: int, t2: int)
    requires
        0 <= t1 <= t2,
    ensures
        section_count_of(t1) <= section_count_of(t2),
{
    assert((t1 + 14) / 28 <= (t2 + 14) / 28) by (nonlinear_arith)
        requires
            0 <= t1 <= t2,
    ;
}

/// Law: a song gets one section per 28 seconds of its target, to the
/// nearest whole section: 5 sections up to 153 seconds, 12 from 322 seconds
/// on, and in between `n` sections for a target within 14 seconds of
/// `n` times 28 (a target exactly halfway between gets the larger count).
pub proof fn law_section_count_nearest(target_secs: int)
    requires
        target_secs >= 0,
    ensures
        section_count_of(target_secs) == 5 <==> target_secs < 154,
        section_count_of(target_secs) == 12 <==> target_secs >= 322,
        5 < section_count_of(target_secs) < 12 ==> 28 * section_count_of(target_secs) - 14
            <= target_secs < 28 * section_count_of(target_secs) + 14,
{
    let q = (target_secs + 14) / 28;
    assert(28 * q <= target_secs + 14 < 28 * q + 28) by (nonlinear_arith)
        requires
            q == (target_secs + 14) / 28,
            target_secs >= 0,
    ;
}

/// Law: the bars of a section are the estimate rounded to the nearest
/// 4-bar phrase (halves up), at least one phrase and at most four: 4 bars
/// for an estimate under 6, 16 from 14 on, and otherwise a multiple of 4
/// within 2 bars of the estimate.
pub proof fn law_phrase_bars_nearest(raw: int)
    requires
        raw >= 0,
    ensures
        phrase_bars_of(raw) % 4 == 0,
        4 <= phrase_bars_of(raw) <= 16,
        phrase_bars_of(raw) == 4 <==> raw < 6,
        phrase_bars_of(raw) == 16 <==> raw >= 14,
        4 < phrase_bars_of(raw) < 16 ==> phrase_bars_of(raw) - 2 <= raw < phrase_bars_of(raw)
            + 2,
{
    let q = (raw + 2) / 4;
    assert(4 * q <= raw + 2 < 4 * q + 4) by (nonlinear_arith)
        requires
            q == (raw + 2) / 4,
            raw >= 0,
    ;
    assert((raw + 2) / 4 * 4 == 4 * q);
}

/// Law: every section of a plan is a whole number of 4-bar phrases, from 4
/// to 16 bars, and all sections are equally long.
pub proof fn law_plan_bars_are_phrases(plan: Seq<SectionPlan>, target_secs: int, raw_bars: int)
    requires
        plans_song(plan, target_secs, raw_bars),
        raw_bars >= 0,
    ensures
        forall|i: int|
            0 <= i < plan.len() ==> {
                &&& (#[trigger] plan[i]).bars % 4 == 0
                &&& 4 <= plan[i].bars <= 16
            },
        forall|i: int, j: int|
            0 <= i < plan.len() && 0 <= j < plan.len() ==> #[trigger] plan[i].bars
                == #[trigger] plan[j].bars,
{
    let b = (raw_bars + 2) / 4 * 4;
    assert(b % 4 == 0) by (nonlinear_arith)
        requires
            b == (raw_bars + 2) / 4 * 4,
            raw_bars >= 0,
    ;
}

/// The title that opens the role text of the section with this name.
pub open spec fn section_title(name: Seq<char>) -> Seq<char> {
    if name == "intro"@ {
        "INTRO"@
    } else if name == "verse_1"@ {
        "VERSE 1"@
    } else if name == "build"@ {
        "BUILD"@
    } else if name == "chorus_1"@ {
        "CHORUS 1"@
    } else if name == "verse_2"@ {
        "VERSE 2"@
    } else if name == "chorus_2"@ {
        "CHORUS 2"@
    } else if name == "bridge"@ {
        "BRIDGE"@
    } else if name == "drop"@ {
        "DROP"@
    } else if name == "chorus_3"@ {
        "FINAL CHORUS"@
    } else if name == "outro_1"@ {
        "OUTRO 1"@
    } else if name == "outro_2"@ {
        "OUTRO 2"@
    } else {
        "END"@
    }
}

/// Law: each section of a plan is told its own part: its role text opens
/// with the title of the section it is given to ("CHORUS 1" for chorus_1,
/// "VERSE 2" for verse_2, "FINAL CHORUS" for chorus_3, and so on), followed
/// by a dash.
pub proof fn law_plan_roles_match_names(plan: Seq<SectionPlan>, target_secs: int, raw_bars: int, k: int)
    requires
        plans_song(plan, target_secs, raw_bars),
        0 <= k < plan.len(),
    ensures
        (section_title(plan[k].name@) + " — "@).is_prefix_of(plan[k].role@),
{
    lemma_role_titles(k);
}

proof fn lemma_role_titles(i: int)
    requires
        0 <= i < SECTION_LIBRARY_LEN,
    ensures
        (section_title(section_name_of(i)) + " — "@).is_prefix_of(section_role_of(i)),
{
    reveal_strlit("intro");
    reveal_strlit("verse_1");
    reveal_strlit("build");
    reveal_strlit("chorus_1");
    reveal_strlit("verse_2");
    reveal_strlit("chorus_2");
    reveal_strlit("bridge");
    reveal_strlit("drop");
    reveal_strlit("chorus_3");
    reveal_strlit("outro_1");
    reveal_strlit("outro_2");
    reveal_strlit("end");
    reveal_strlit(" — ");
    reveal_strlit("INTRO");
    reveal_strlit("VERSE 1");
    reveal_strlit("BUILD");
    reveal_strlit("CHORUS 1");
    reveal_strlit("VERSE 2");
    reveal_strlit("CHORUS 2");
    reveal_strlit("BRIDGE");
    reveal_strlit("DROP");
    reveal_strlit("FINAL CHORUS");
    reveal_strlit("OUTRO 1");
    reveal_strlit("OUTRO 2");
    reveal_strlit("END");
    let role = section_role_of(i);
    let t = section_title(section_name_of(i)) + " — "@;
    if i == 0 {
        reveal_strlit("INTRO — Sparse and atmospheric. Bass and very light hi-hat only. NO melody. Low energy; slowly build anticipation. Keep the arrangement intentionally empty.");
        assert(section_name_of(i) == "intro"@);
        assert(section_title(section_name_of(i)) == "INTRO"@);
        assert(t.len() == 8);
        assert(role.subrange(0, t.len() as int) =~= t);
    } else if i == 1 {
        reveal_strlit("VERSE 1 — Full arrangement. Bass groove + lead melody + full drums (kick, snare, hat). Medium energy. Establish a clear, memorable melodic phrase. Use a consistent key throughout.");
        assert(section_name_of(i) == "verse_1"@);
        assert(section_title(section_name_of(i)) == "VERSE 1"@);
        assert(t.len() == 10);
        assert(role.subrange(0, t.len() as int) =~= t);
    } else if i == 2 {
        reveal_strlit("BUILD — Rising energy. Layer a counter-melody or arpeggio pad on top of the verse groove. Add extra percussion hits on off-beats. Tension building toward the drop.");
        assert(section_name_of(i) == "build"@);
        assert("build"@[0] != "intro"@[0]);
        assert(section_title(section_name_of(i)) == "BUILD"@);
        assert(t.len() == 8);
        assert(role.subrange(0, t.len() as int) =~= t);
    } else if i == 3 {
        reveal_strlit("CHORUS 1 — The hook. Maximum energy. Every layer at once: bass, lead melody, pads, full drums + clap. Bright, uplifting, harmonically rich. Emotional peak.");
        assert(section_name_of(i) == "chorus_1"@);
        assert(section_title(section_name_of(i)) == "CHORUS 1"@);
        assert(t.len() == 11);
        assert(role.subrange(0, t.len() as int) =~= t);
    } else if i == 4 {
        reveal_strlit("VERSE 2 — Same key and BPM as verse 1, but a COMPLETELY DIFFERENT melodic phrase and a varied rhythmic pattern. The song progresses; do not repeat verse 1.");
        assert(section_name_of(i) == "verse_2"@);
        assert("verse_2"@[6] != "verse_1"@[6]);
        assert(section_title(section_name_of(i)) == "VERSE 2"@);
        assert(t.len() == 10);
        assert(role.subrange(0, t.len() as int) =~= t);
    } else if i == 5 {
        reveal_strlit("CHORUS 2 — Hook returns. Same feel as chorus 1 but add extra percussion hits or a higher melody line to build more intensity than chorus 1.");
        assert(section_name_of(i) == "chorus_2"@);
        assert("chorus_2"@[7] != "chorus_1"@[7]);
        assert(section_title(section_name_of(i)) == "CHORUS 2"@);
        assert(t.len() == 11);
        assert(role.subrange(0, t.len() as int) =~= t);
    } else if i == 6 {
        reveal_strlit("BRIDGE — Contrast and tension. Strip most layers. Change the rhythmic feel, or drop the kick entirely. Sparse and unexpected — create space before the finale.");
        assert(section_name_of(i) == "bridge"@);
        assert(section_title(section_name_of(i)) == "BRIDGE"@);
        assert(t.len() == 9);
        assert(role.subrange(0, t.len() as int) =~= t);
    } else if i == 7 {
        reveal_strlit("DROP — Minimal. Bass-heavy hypnotic groove with almost no melody. Atmospheric pads only. Stripped-back tension builder before the final rise.");
        assert(section_name_of(i) == "drop"@);
        assert(section_title(section_name_of(i)) == "DROP"@);
        assert(t.len() == 7);
        assert(role.subrange(0, t.len() as int) =~= t);
    } else if i == 8 {
        reveal_strlit("FINAL CHORUS — Biggest moment of the entire track. Maximum intensity: all instruments at full power. Add extra layers to make it sound huge and triumphant.");
        assert(section_name_of(i) == "chorus_3"@);
        assert("chorus_3"@[7] != "chorus_1"@[7]);
        assert("chorus_3"@[7] != "chorus_2"@[7]);
        assert(section_title(section_name_of(i)) == "FINAL CHORUS"@);
        assert(t.len() == 15);
        assert(role.subrange(0, t.len() as int) =~= t);
    } else if i == 9 {
        reveal_strlit("OUTRO 1 — Begin winding down. Remove the lead melody. Only bass + light drums. Energy decreasing gradually.");
        assert(section_name_of(i) == "outro_1"@);
        assert("outro_1"@[0] != "verse_1"@[0]);
        assert("outro_1"@[0] != "verse_2"@[0]);
        assert(section_title(section_name_of(i)) == "OUTRO 1"@);
        assert(t.len() == 10);
        assert(role.subrange(0, t.len() as int) =~= t);
    } else if i == 10 {
        reveal_strlit("OUTRO 2 — Very sparse. Remove drums entirely. Only bass and a soft pad fading away.");
        assert(section_name_of(i) == "outro_2"@);
        assert("outro_2"@[0] != "verse_1"@[0]);
        assert("outro_2"@[0] != "verse_2"@[0]);
        assert("outro_2"@[6] != "outro_1"@[6]);
        assert(section_title(section_name_of(i)) == "OUTRO 2"@);
        assert(t.len() == 10);
        assert(role.subrange(0, t.len() as int) =~= t);
    } else {
        reveal_strlit("END — Final resolution. One or two very quiet sustained notes only. Song ending.");
        assert(section_name_of(i) == "end"@);
        assert(section_title(section_name_of(i)) == "END"@);
        assert(t.len() == 6);
        assert(role.subrange(0, t.len() as int) =~= t);
    }
}

/// Law: no two sections of a plan share a name, so every section of a plan
/// is composed by a call of its own.
pub proof fn law_plan_sections_unique(plan: Seq<SectionPlan>, target_secs: int, raw_bars: int)
    requires
        plans_song(plan, target_secs, raw_bars),
    ensures
        forall|i: int, j: int|
            0 <= i < plan.len() && 0 <= j < plan.len() && i != j ==> (#[trigger] plan[i]).name@
                != (#[trigger] plan[j]).name@,
{
    lemma_library_names_distinct();
}

/// The sections of the library have twelve different names.
proof fn lemma_library_names_distinct()
    ensures
        forall|i: int, j: int|
            #![trigger section_name_of(i), section_name_of(j)]
            0 <= i < SECTION_LIBRARY_LEN && 0 <= j < SECTION_LIBRARY_LEN && i != j ==> section_name_of(i)
                != section_name_of(j),
{
    reveal_strlit("intro");
    reveal_strlit("verse_1");
    reveal_strlit("build");
    reveal_strlit("chorus_1");
    reveal_strlit("verse_2");
    reveal_strlit("chorus_2");
    reveal_strlit("bridge");
    reveal_strlit("drop");
    reveal_strlit("chorus_3");
    reveal_strlit("outro_1");
    reveal_strlit("outro_2");
    reveal_strlit("end");
    assert forall|i: int, j: int|
        0 <= i < SECTION_LIBRARY_LEN && 0 <= j < SECTION_LIBRARY_LEN && i != j implies section_name_of(
        i,
    ) != section_name_of(j) by {
        let a = section_name_of(i);
        let b = section_name_of(j);
        if a.len() == b.len() {
            if a.len() == 5 {
                assert(a[0] != b[0]);
            } else if a.len() == 7 {
                assert(a[0] != b[0] || a[6] != b[6]);
            } else if a.len() == 8 {
                assert(a[7] != b[7]);
            }
        }
    }
}

/// Law: plans made with the same bar estimate agree on the sections they
/// share: a longer song's plan extends a shorter one's.
pub proof fn law_plan_extends(
    p1: Seq<SectionPlan>,
    p2: Seq<SectionPlan>,
    t1: int,
    t2: int,
    raw_bars: int,
)
    requires
        plans_song(p1, t1, raw_bars),
        plans_song(p2, t2, raw_bars),
        0 <= t1 <= t2,
    ensures
        p1.len() <= p2.len(),
        forall|i: int|
            0 <= i < p1.len() ==> (#[trigger] p1[i]).name@ == p2[i].name@ && p1[i].role@
                == p2[i].role@ && p1[i].bars == p2[i].bars,
{
    law_section_count_monotone(t1, t2);
}

// ── Arrangement: filling the target length ───────────────────────────────────

/// The plan index of the verse that repeats to fill a song.
pub const REPEAT_VERSE: usize = 1;

/// The plan index of the chorus that repeats to fill a song.
pub const REPEAT_CHORUS: usize = 3;

/// The sections of a plan of `n` sections, in plan order.
pub open spec fn plan_order(n: int) -> Seq<usize> {
    Seq::new(n as nat, |i: int| i as usize)
}

/// The sections from `lo` up to `hi`, in plan order.
pub open spec fn order_range(lo: int, hi: int) -> Seq<usize> {
    Seq::new((hi - lo) as nat, |i: int| (i + lo) as usize)
}

/// The verse–chorus pair, `repeats` times.
pub open spec fn pairs(repeats: int) -> Seq<usize> {
    Seq::new(
        (2 * repeats) as nat,
        |i: int| if i % 2 == 0 {
            REPEAT_VERSE
        } else {
            REPEAT_CHORUS
        },
    )
}

/// The closing of a full plan: verse 2, chorus 2 and the drop, then
/// bridge → chorus (the final one) → outro.
pub open spec fn full_closing() -> Seq<usize> {
    seq![4usize, 5, 7, 6, 8]
}

/// The order in which a plan of `n` sections is played, with the
/// verse–chorus pair repeated `repeats` times right after the first chorus.
/// A plan with an outro (10 sections or more) then closes with verse 2,
/// chorus 2 and the drop, then bridge → final chorus → the outro sections;
/// a shorter plan of at least 4 sections goes on with its sections 4..n in
/// order; a plan of fewer than 4 is played in order.
pub open spec fn arrangement_of(n: int, repeats: int) -> Seq<usize> {
    if n >= 10 {
        order_range(0, 4) + pairs(repeats) + full_closing() + order_range(9, n)
    } else if n >= 4 {
        order_range(0, 4) + pairs(repeats) + order_range(4, n)
    } else {
        plan_order(n)
    }
}

/// The seconds that the sections `order` take, where section `i` takes
/// `secs[i]` seconds.
pub open spec fn secs_total(order: Seq<usize>, secs: Seq<u32>) -> int
    decreases order.len(),
{
    if order.len() == 0 {
        0
    } else {
        secs_total(order.drop_last(), secs) + secs[order.last() as int]
    }
}

/// The seconds of one verse–chorus pair.
pub open spec fn pair_secs(secs: Seq<u32>) -> int {
    secs[REPEAT_VERSE as int] + secs[REPEAT_CHORUS as int]
}

/// How many times the verse–chorus pair repeats so that the plan's
/// sections, each `secs[i]` seconds long, reach `target_secs`: the fewest
/// that do. None where the plan alone reaches it, has no pair, or its pair
/// takes no time.
pub open spec fn repeats_for(secs: Seq<u32>, target_secs: int) -> int {
    let base = secs_total(plan_order(secs.len() as int), secs);
    if secs.len() < 4 || pair_secs(secs) == 0 || base >= target_secs {
        0
    } else {
        (target_secs - base + pair_secs(secs) - 1) / pair_secs(secs)
    }
}

/// The arrangement of a planned song whose section `i` takes `secs[i]`
/// seconds, for a target of `target_secs` seconds.
pub open spec fn song_arrangement(secs: Seq<u32>, target_secs: int) -> Seq<usize> {
    arrangement_of(secs.len() as int, repeats_for(secs, target_secs))
}

/// Arranges a planned song to fill its target length (see
/// `song_arrangement`): every section is played, the verse–chorus pair is
/// repeated after the first chorus as often as it takes, and a full plan
/// closes with bridge → chorus → outro. `secs[i]` is the length in seconds
/// of section `i`; the entries of the result are indices into the plan.
pub fn build_arrangement(secs: &Vec<u32>, target_secs: u32) -> (r: Vec<usize>)
    ensures
        r@ == song_arrangement(secs@, target_secs as int),
{
    let n = secs.len();
    let mut base: u128 = 0;
    let mut i: usize = 0;
    while i < n
        invariant
            i <= n == secs@.len(),
            base == secs_total(plan_order(i as int), secs@),
            base <= i * 0xFFFF_FFFFu128,
        decreases n - i,
    {
        proof {
            assert(plan_order(i + 1).drop_last() =~= plan_order(i as int));
        }
        base = base + secs[i] as u128;
        i += 1;
    }
    let mut r: Vec<usize> = Vec::new();
    if n < 4 {
        let mut j: usize = 0;
        while j < n
            invariant
                j <= n,
                n < 4,
                r@ == plan_order(j as int),
            decreases n - j,
        {
            r.push(j);
            proof {
                assert(r@ =~= plan_order(j + 1));
            }
            j += 1;
        }
        return r;
    }
    let pair: u128 = secs[REPEAT_VERSE] as u128 + secs[REPEAT_CHORUS] as u128;
    let repeats: u128 = if pair == 0 || base >= target_secs as u128 {
        0
    } else {
        (target_secs as u128 - base + pair - 1) / pair
    };
    assert(repeats == repeats_for(secs@, target_secs as int));
    r.push(0);
    r.push(1);
    r.push(2);
    r.push(3);
    assert(r@ =~= order_range(0, 4));
    let mut k: u128 = 0;
    while k < repeats
        invariant
            k <= repeats,
            r@ == order_range(0, 4) + pairs(k as int),
        decreases repeats - k,
    {
        r.push(REPEAT_VERSE);
        r.push(REPEAT_CHORUS);
        proof {
            assert(r@ =~= order_range(0, 4) + pairs(k + 1));
        }
        k += 1;
    }
    let ghost mid = r@;
    let from: usize = if n >= 10 {
        r.push(4);
        r.push(5);
        r.push(7);
        r.push(6);
        r.push(8);
        assert(r@ =~= mid + full_closing());
        9
    } else {
        4
    };
    let ghost before = r@;
    let mut j: usize = from;
    while j < n
        invariant
            from <= j <= n,
            r@ == before + order_range(from as int, j as int),
        decreases n - j,
    {
        r.push(j);
        proof {
            assert(r@ =~= before + order_range(from as int, j + 1));
        }
        j += 1;
    }
    assert(r@ =~= song_arrangement(secs@, target_secs as int));
    r
}

/// The seconds of `a + b` are those of `a` plus those of `b`.
proof fn lemma_secs_concat(a: Seq<usize>, b: Seq<usize>, secs: Seq<u32>)
    ensures
        secs_total(a + b, secs) == secs_total(a, secs) + secs_total(b, secs),
    decreases b.len(),
{
    if b.len() > 0 {
        assert((a + b).drop_last() =~= a + b.drop_last());
        lemma_secs_concat(a, b.drop_last(), secs);
    } else {
        assert(a + b =~= a);
    }
}

/// `repeats` verse–chorus pairs take `repeats` times a pair's seconds.
proof fn lemma_secs_pairs(repeats: nat, secs: Seq<u32>)
    ensures
        secs_total(pairs(repeats as int), secs) == repeats * pair_secs(secs),
    decreases repeats,
{
    if repeats > 0 {
        let p = pairs(repeats as int);
        let q = pairs(repeats - 1);
        assert(p =~= q + seq![REPEAT_VERSE, REPEAT_CHORUS]);
        lemma_secs_pairs((repeats - 1) as nat, secs);
        lemma_secs_concat(q, seq![REPEAT_VERSE, REPEAT_CHORUS], secs);
        reveal_with_fuel(secs_total, 3);
        assert(seq![REPEAT_VERSE, REPEAT_CHORUS].drop_last() =~= seq![REPEAT_VERSE]);
        assert(seq![REPEAT_VERSE].drop_last() =~= Seq::<usize>::empty());
        assert(repeats * pair_secs(secs) == (repeats - 1) * pair_secs(secs) + pair_secs(secs))
            by (nonlinear_arith);
    } else {
        assert(pairs(0) =~= Seq::<usize>::empty());
    }
}

/// The closing of a full plan takes as long as its sections 4..9 in plan
/// order: it is the same sections, reordered.
proof fn lemma_closing_secs(secs: Seq<u32>)
    requires
        secs.len() >= 10,
    ensures
        secs_total(full_closing(), secs) == secs_total(order_range(4, 9), secs),
{
    let c = full_closing();
    let m = order_range(4, 9);
    let e = Seq::<usize>::empty();
    assert(seq![4usize].drop_last() =~= e);
    assert(secs_total(e, secs) == 0);
    assert(secs_total(seq![4usize], secs) == secs[4]);
    assert(seq![4usize, 5].drop_last() =~= seq![4usize]);
    assert(secs_total(seq![4usize, 5], secs) == secs[4] + secs[5]);
    assert(seq![4usize, 5, 7].drop_last() =~= seq![4usize, 5]);
    assert(secs_total(seq![4usize, 5, 7], secs) == secs[4] + secs[5] + secs[7]);
    assert(seq![4usize, 5, 7, 6].drop_last() =~= seq![4usize, 5, 7]);
    assert(secs_total(seq![4usize, 5, 7, 6], secs) == secs[4] + secs[5] + secs[7] + secs[6]);
    assert(c.drop_last() =~= seq![4usize, 5, 7, 6]);
    assert(secs_total(c, secs) == secs[4] + secs[5] + secs[7] + secs[6] + secs[8]);
    assert(seq![4usize, 5, 6].drop_last() =~= seq![4usize, 5]);
    assert(secs_total(seq![4usize, 5, 6], secs) == secs[4] + secs[5] + secs[6]);
    assert(seq![4usize, 5, 6, 7].drop_last() =~= seq![4usize, 5, 6]);
    assert(secs_total(seq![4usize, 5, 6, 7], secs) == secs[4] + secs[5] + secs[6] + secs[7]);
    assert(m.drop_last() =~= seq![4usize, 5, 6, 7]);
    assert(m.last() == 8);
    assert(secs_total(m, secs) == secs[4] + secs[5] + secs[6] + secs[7] + secs[8]);
}

/// An arranged song takes the seconds of its plan plus those of its
/// repeated pairs.
proof fn lemma_arrangement_secs(secs: Seq<u32>, repeats: nat)
    requires
        secs.len() >= 4,
    ensures
        secs_total(arrangement_of(secs.len() as int, repeats as int), secs) == secs_total(
            plan_order(secs.len() as int),
            secs,
        ) + repeats * pair_secs(secs),
{
    let n = secs.len() as int;
    let h = order_range(0, 4);
    let p = pairs(repeats as int);
    lemma_secs_pairs(repeats, secs);
    if n >= 10 {
        let m = order_range(4, 9);
        let t = order_range(9, n);
        assert(plan_order(n) =~= h + m + t);
        lemma_secs_concat(h + m, t, secs);
        lemma_secs_concat(h, m, secs);
        lemma_secs_concat(h + p + full_closing(), t, secs);
        lemma_secs_concat(h + p, full_closing(), secs);
        lemma_secs_concat(h, p, secs);
        lemma_closing_secs(secs);
    } else {
        let t = order_range(4, n);
        assert(plan_order(n) =~= h + t);
        lemma_secs_concat(h, t, secs);
        lemma_secs_concat(h + p, t, secs);
        lemma_secs_concat(h, p, secs);
    }
}

/// Law: an arranged song reaches its target length, and where the pair was
/// repeated, it overshoots by less than one verse–chorus pair; each section
/// is counted with its own length.
pub proof fn law_arrangement_fills_target(secs: Seq<u32>, target_secs: int)
    requires
        secs.len() >= 4,
        pair_secs(secs) > 0,
    ensures
        secs_total(song_arrangement(secs, target_secs), secs) >= target_secs,
        repeats_for(secs, target_secs) > 0 ==> secs_total(song_arrangement(secs, target_secs), secs)
            < target_secs + pair_secs(secs),
{
    let n = secs.len() as int;
    let base = secs_total(plan_order(n), secs);
    let pr = pair_secs(secs);
    let k = repeats_for(secs, target_secs);
    if base < target_secs {
        let gap = target_secs - base;
        assert(k == (gap + pr - 1) / pr);
        assert(k >= 0 && k * pr >= gap && k * pr < gap + pr) by (nonlinear_arith)
            requires
                pr > 0,
                gap > 0,
                k == (gap + pr - 1) / pr,
        ;
    } else {
        assert(k == 0);
    }
    lemma_arrangement_secs(secs, k as nat);
}

/// Law: an arrangement plays every section of its plan, refers to no
/// section outside it, opens with the plan's first section and closes with
/// its last; a plan with an outro (10 sections or more) closes with
/// bridge → final chorus → outro, then its remaining sections in order.
pub proof fn law_arrangement_plays_plan(secs: Seq<u32>, target_secs: int)
    requires
        secs.len() >= 4,
    ensures
        ({
            let n = secs.len() as int;
            let a = song_arrangement(secs, target_secs);
            &&& forall|i: int| 0 <= i < a.len() ==> (#[trigger] a[i]) < n
            &&& forall|s: int| 0 <= s < n ==> #[trigger] a.contains(s as usize)
            &&& a[0] == 0
            &&& a.last() == (n - 1) as usize
            &&& n >= 10 ==> a.subrange(a.len() - (n - 7), a.len() as int) == seq![6usize, 8]
                + order_range(9, n)
        }),
{
    let n = secs.len() as int;
    let k = repeats_for(secs, target_secs);
    assert(k >= 0) by {
        let base = secs_total(plan_order(n), secs);
        if pair_secs(secs) > 0 && base < target_secs {
            assert((target_secs - base + pair_secs(secs) - 1) / pair_secs(secs) >= 0)
                by (nonlinear_arith)
                requires
                    pair_secs(secs) > 0,
                    target_secs - base > 0,
            ;
        }
    }
    let a = song_arrangement(secs, target_secs);
    let h = order_range(0, 4);
    let p = pairs(k);
    if n >= 10 {
        let c = full_closing();
        let t = order_range(9, n);
        assert(a == h + p + c + t);
        let off = 4 + 2 * k;
        assert forall|s: int| 0 <= s < n implies #[trigger] a.contains(s as usize) by {
            if s < 4 {
                assert(a[s] == s as usize);
            } else if s == 4 {
                assert(a[off] == 4);
            } else if s == 5 {
                assert(a[off + 1] == 5);
            } else if s == 6 {
                assert(a[off + 3] == 6);
            } else if s == 7 {
                assert(a[off + 2] == 7);
            } else if s == 8 {
                assert(a[off + 4] == 8);
            } else {
                assert(a[off + 5 + (s - 9)] == t[s - 9]);
            }
        }
        assert(a.last() == t[n - 10]);
        assert(a.subrange(a.len() - (n - 7), a.len() as int) =~= seq![6usize, 8] + t);
    } else {
        let t = order_range(4, n);
        assert(a == h + p + t);
        assert forall|s: int| 0 <= s < n implies #[trigger] a.contains(s as usize) by {
            if s < 4 {
                assert(a[s] == s as usize);
            } else {
                assert(a[4 + 2 * k + (s - 4)] == t[s - 4]);
            }
        }
        if n > 4 {
            assert(a.last() == t[n - 5]);
        } else if k > 0 {
            assert(a.last() == p[2 * k - 1]);
        } else {
            assert(a.last() == h[3]);
        }
    }
}

/// Law: whatever bar estimates two plans were made with, the plan of the
/// shorter target names a prefix of the sections of the longer one's.
pub proof fn law_plan_names_extend(
    p1: Seq<SectionPlan>,
    p2: Seq<SectionPlan>,
    t1: int,
    t2: int,
    raw1: int,
    raw2: int,
)
    requires
        plans_song(p1, t1, raw1),
        plans_song(p2, t2, raw2),
        0 <= t1 <= t2,
    ensures
        p1.len() <= p2.len(),
        forall|i: int| 0 <= i < p1.len() ==> (#[trigger] p1[i]).name@ == p2[i].name@,
{
    law_section_count_monotone(t1, t2);
}

} // verus!
