use giribeat::player::{next_player_step, player_args, player_candidates, PlayerStep};

#[test]
fn players_are_tried_in_order() {
    assert_eq!(player_candidates(), vec!["aplay", "paplay", "ffplay", "mpv", "cvlc"]);
}

#[test]
fn each_player_reads_standard_input() {
    assert_eq!(player_args("aplay"), vec!["-q", "-"]);
    assert_eq!(player_args("paplay"), vec!["-"]);
    assert_eq!(player_args("ffplay"), vec!["-nodisp", "-autoexit", "-loglevel", "quiet", "-"]);
    assert_eq!(player_args("mpv"), vec!["--no-video", "--really-quiet", "-"]);
    assert_eq!(player_args("cvlc"), vec!["-q", "--play-and-exit", "-"]);
    assert_eq!(player_args("other"), vec!["-"]);
}

#[test]
fn first_player_found_is_used() {
    assert_eq!(next_player_step(&vec![]), PlayerStep::Probe(0));
    assert_eq!(next_player_step(&vec![false, false]), PlayerStep::Probe(2));
    assert_eq!(next_player_step(&vec![false, true]), PlayerStep::Use(1));
    assert_eq!(next_player_step(&vec![true]), PlayerStep::Use(0));
    assert_eq!(next_player_step(&vec![false; 5]), PlayerStep::NoPlayer);
}
