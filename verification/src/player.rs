//! Which external audio players are tried, in what order, and how each is
//! told to read a WAV file from its standard input.

use vstd::prelude::*;
use crate::text::same_text;

verus! {

/// The views of a list of string slices.
pub open spec fn strs_view(v: Seq<&str>) -> Seq<Seq<char>> {
    v.map_values(|s: &str| s@)
}

/// The audio players tried, in order of preference.
pub open spec fn player_candidates_of() -> Seq<Seq<char>> {
    seq!["aplay"@, "paplay"@, "ffplay"@, "mpv"@, "cvlc"@]
}

/// The audio players tried, in order of preference.
pub fn player_candidates() -> (r: Vec<&'static str>)
    ensures
        strs_view(r@) == player_candidates_of(),
{
    let r = vec!["aplay", "paplay", "ffplay", "mpv", "cvlc"];
    assert(strs_view(r@) =~= player_candidates_of());
    r
}

/// The arguments that make `player` play a WAV file from standard input,
/// quietly and without a window; a bare "-" for a player not known here.
pub open spec fn player_args_of(player: Seq<char>) -> Seq<Seq<char>> {
    if player == "aplay"@ {
        seq!["-q"@, "-"@]
    } else if player == "paplay"@ {
        seq!["-"@]
    } else if player == "ffplay"@ {
        seq!["-nodisp"@, "-autoexit"@, "-loglevel"@, "quiet"@, "-"@]
    } else if player == "mpv"@ {
        seq!["--no-video"@, "--really-quiet"@, "-"@]
    } else if player == "cvlc"@ {
        seq!["-q"@, "--play-and-exit"@, "-"@]
    } else {
        seq!["-"@]
    }
}

/// The arguments for `player` (see `player_args_of`).
pub fn player_args(player: &str) -> (r: Vec<&'static str>)
    ensures
        strs_view(r@) == player_args_of(player@),
{
    let r = if same_text(player, "aplay") {
        vec!["-q", "-"]
    } else if same_text(player, "paplay") {
        vec!["-"]
    } else if same_text(player, "ffplay") {
        vec!["-nodisp", "-autoexit", "-loglevel", "quiet", "-"]
    } else if same_text(player, "mpv") {
        vec!["--no-video", "--really-quiet", "-"]
    } else if same_text(player, "cvlc") {
        vec!["-q", "--play-and-exit", "-"]
    } else {
        vec!["-"]
    };
    assert(strs_view(r@) =~= player_args_of(player@));
    r
}

/// The message of a run on a machine where none of the players is found.
pub const NO_PLAYER_MESSAGE: &'static str =
    "No audio player found. Install one of: aplay (alsa-utils), paplay (pulseaudio-utils), ffplay, mpv";

/// What to do next in the search for an audio player.
#[derive(Clone, Copy, Debug, PartialEq, Eq, Structural)]
pub enum PlayerStep {
    /// Use the candidate at this index: it was found.
    Use(usize),
    /// Look for the candidate at this index.
    Probe(usize),
    /// None of the candidates was found.
    NoPlayer,
}

/// The next step of the search for a player, given whether each candidate
/// looked for so far (in order of preference) was found: use the first one
/// found; else look for the next candidate; else give up.
pub open spec fn player_step_of(found: Seq<bool>) -> PlayerStep {
    match found.index_of_first(true) {
        Some(i) => PlayerStep::Use(i as usize),
        None => if found.len() < player_candidates_of().len() {
            PlayerStep::Probe(found.len() as usize)
        } else {
            PlayerStep::NoPlayer
        },
    }
}

/// Law: the search uses the first candidate found, probing the candidates
/// in order and stopping at the first hit; with none found among all of
/// them, there is no player.
pub proof fn law_player_first_found(found: Seq<bool>, i: int)
    ensures
        0 <= i < found.len() && found[i] && (forall|j: int| 0 <= j < i ==> !found[j])
            ==> player_step_of(found) == PlayerStep::Use(i as usize),
        (forall|j: int| 0 <= j < found.len() ==> !found[j]) && found.len()
            < player_candidates_of().len() ==> player_step_of(found) == PlayerStep::Probe(
            found.len() as usize,
        ),
        (forall|j: int| 0 <= j < found.len() ==> !found[j]) && found.len()
            >= player_candidates_of().len() ==> player_step_of(found) == PlayerStep::NoPlayer,
{
    found.index_of_first_ensures(true);
    if found.contains(true) {
        let k = choose|k: int| 0 <= k < found.len() && found[k] == true;
        assert(found[k]);
    }
}

/// The next step of the search for a player (see `player_step_of`).
pub fn next_player_step(found: &Vec<bool>) -> (r: PlayerStep)
    ensures
        r == player_step_of(found@),
{
    let ghost f = found@;
    proof {
        f.index_of_first_ensures(true);
    }
    let mut i: usize = 0;
    while i < found.len()
        invariant
            i <= found@.len(),
            f == found@,
            forall|j: int| 0 <= j < i ==> !found@[j],
        decreases found@.len() - i,
    {
        if found[i] {
            proof {
                f.index_of_first_ensures(true);
                let k = f.index_of_first(true).unwrap();
                if k < i {
                    assert(!f[k]);
                }
            }
            return PlayerStep::Use(i);
        }
        i += 1;
    }
    proof {
        f.index_of_first_ensures(true);
        if f.contains(true) {
            let k = choose|k: int| 0 <= k < f.len() && f[k] == true;
            assert(!f[k]);
        }
    }
    if found.len() < 5 {
        PlayerStep::Probe(found.len())
    } else {
        PlayerStep::NoPlayer
    }
}

} // verus!
