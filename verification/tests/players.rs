use chess_sim::chance::pick;
use chess_sim::piece::PieceKind;
use chess_sim::player::{
    aggressive_candidates, find_aggressive_turn, find_pieceful_turn, find_random_turn,
    pieceful_candidates, Player, PAWN_CAN_ATTACK_PAWNS,
};
use chess_sim::selection::{
    all_turns, get_all_check_turns, get_all_checkmate_turns, get_all_pieceful_checkmate_turns,
    get_all_pieceful_turns, get_all_pieceful_with_check_turns, get_capture_turns,
    get_pawn_capture_other_pawns_turns, merge_pools, select, TurnFilter,
};
use chess_sim::turn::{classify_all, ClassifiedMove, LegalMove, MalformedNotation};
use std::str::FromStr;

const PLAYERS: [Player; 4] =
    [Player::Random, Player::Aggressive, Player::Pacifist, Player::SemiPacifist];

fn legal(notation: &str, captured: Option<PieceKind>) -> LegalMove {
    LegalMove { notation: String::from(notation), captured }
}

fn turn(
    notation: &str,
    mover_kind: PieceKind,
    captured_kind: Option<PieceKind>,
    is_check: bool,
    is_checkmate: bool,
) -> ClassifiedMove {
    ClassifiedMove {
        notation: String::from(notation),
        mover_kind,
        is_capture: captured_kind.is_some(),
        is_check,
        is_checkmate,
        captured_kind,
    }
}

/// A position with one move of every sort.
fn mixed() -> Vec<ClassifiedMove> {
    vec![
        turn("e4", PieceKind::Pawn, None, false, false),
        turn("Nf3+", PieceKind::Knight, None, true, false),
        turn("Qxf7#", PieceKind::Queen, Some(PieceKind::Pawn), false, true),
        turn("exd5", PieceKind::Pawn, Some(PieceKind::Pawn), false, false),
        turn("Bxc6+", PieceKind::Bishop, Some(PieceKind::Knight), true, false),
        turn("Rd8#", PieceKind::Rook, None, false, true),
        turn("exf6", PieceKind::Pawn, Some(PieceKind::Knight), false, false),
        turn("Nxe5", PieceKind::Knight, Some(PieceKind::Pawn), false, false),
        turn("dxe8=Q#", PieceKind::Pawn, Some(PieceKind::Pawn), false, true),
    ]
}

#[test]
fn player_names_are_read() {
    assert_eq!(Player::from_str("Random"), Ok(Player::Random));
    assert_eq!(Player::from_str("Aggressive"), Ok(Player::Aggressive));
    assert_eq!(Player::from_str("Pacifist"), Ok(Player::Pacifist));
    assert_eq!(Player::from_str("SemiPacifist"), Ok(Player::SemiPacifist));
    assert_eq!("Pacifist".parse::<Player>(), Ok(Player::Pacifist));
}

#[test]
fn unknown_player_names_are_refused() {
    assert_eq!(Player::from_str(""), Err("Invalid player input"));
    assert_eq!(Player::from_str("random"), Err("Invalid player input"));
    assert_eq!(Player::from_str("Semi Pacifist"), Err("Invalid player input"));
    assert_eq!(Player::from_str("Pacifist "), Err("Invalid player input"));
}

#[test]
fn player_names_are_written() {
    assert_eq!(Player::Random.to_string(), "Random");
    assert_eq!(Player::Aggressive.to_string(), "Aggressive");
    assert_eq!(Player::Pacifist.to_string(), "Pacifist");
    assert_eq!(Player::SemiPacifist.to_string(), "SemiPacifist");
}

#[test]
fn player_names_round_trip() {
    for player in PLAYERS {
        assert_eq!(Player::from_str(&player.to_string()), Ok(player));
    }
}

#[test]
fn filters_pick_what_they_say() {
    let turns = mixed();
    assert_eq!(all_turns(turns.len()), vec![0, 1, 2, 3, 4, 5, 6, 7, 8]);
    assert_eq!(select(&turns, TurnFilter::Any), vec![0, 1, 2, 3, 4, 5, 6, 7, 8]);
    assert_eq!(get_all_checkmate_turns(&turns), vec![2, 5, 8]);
    assert_eq!(get_all_check_turns(&turns), vec![1, 4]);
    assert_eq!(get_all_pieceful_turns(&turns), vec![0, 1, 5]);
    assert_eq!(get_all_pieceful_checkmate_turns(&turns), vec![5]);
    assert_eq!(get_capture_turns(&turns), vec![3, 4, 6, 7]);
    assert_eq!(get_pawn_capture_other_pawns_turns(&turns), vec![3]);
    assert_eq!(select(&turns, TurnFilter::Capture), vec![2, 3, 4, 6, 7, 8]);
    assert_eq!(select(&turns, TurnFilter::Quiet), vec![0, 5]);
    assert_eq!(select(&turns, TurnFilter::QuietCheckmate), vec![5]);
}

#[test]
fn filters_on_no_moves() {
    let turns: Vec<ClassifiedMove> = Vec::new();
    assert_eq!(all_turns(0), Vec::<usize>::new());
    assert_eq!(select(&turns, TurnFilter::Any), Vec::<usize>::new());
    assert_eq!(get_all_checkmate_turns(&turns), Vec::<usize>::new());
    assert_eq!(get_all_pieceful_with_check_turns(&turns), Vec::<usize>::new());
    for player in PLAYERS {
        assert_eq!(player.candidates(&turns), Vec::<usize>::new());
    }
}

#[test]
fn each_filter_tests_one_move() {
    let mate = turn("Rd8#", PieceKind::Rook, None, false, true);
    assert!(TurnFilter::Any.test(&mate));
    assert!(TurnFilter::Checkmate.test(&mate));
    assert!(!TurnFilter::Check.test(&mate));
    assert!(!TurnFilter::Capture.test(&mate));
    assert!(TurnFilter::Peaceful.test(&mate));
    assert!(TurnFilter::PeacefulCheckmate.test(&mate));
    assert!(TurnFilter::Quiet.test(&mate));
    assert!(TurnFilter::QuietCheckmate.test(&mate));
    assert!(!TurnFilter::CaptureNotCheckmate.test(&mate));
    assert!(!TurnFilter::PawnTakesPawn.test(&mate));
    let pawns = turn("exd5", PieceKind::Pawn, Some(PieceKind::Pawn), false, false);
    assert!(TurnFilter::PawnTakesPawn.test(&pawns));
    assert!(TurnFilter::CaptureNotCheckmate.test(&pawns));
    assert!(!TurnFilter::Peaceful.test(&pawns));
}

#[test]
fn a_pawn_takes_a_pawn_only_short_of_checkmate() {
    let mating = turn("exd5#", PieceKind::Pawn, Some(PieceKind::Pawn), false, true);
    assert!(!TurnFilter::PawnTakesPawn.test(&mating));
    let piece = turn("exd5", PieceKind::Pawn, Some(PieceKind::Knight), false, false);
    assert!(!TurnFilter::PawnTakesPawn.test(&piece));
    let bishop = turn("Bxd5", PieceKind::Bishop, Some(PieceKind::Pawn), false, false);
    assert!(!TurnFilter::PawnTakesPawn.test(&bishop));
    let mut unmarked = turn("ed5", PieceKind::Pawn, Some(PieceKind::Pawn), false, false);
    unmarked.is_capture = false;
    assert!(!TurnFilter::PawnTakesPawn.test(&unmarked));
}

#[test]
fn quiet_moves_are_offered_only_with_a_quiet_checkmate() {
    let with_mate = vec![
        turn("e4", PieceKind::Pawn, None, false, false),
        turn("Nf3+", PieceKind::Knight, None, true, false),
        turn("Rd8#", PieceKind::Rook, None, false, true),
        turn("exd5", PieceKind::Pawn, Some(PieceKind::Pawn), false, false),
    ];
    assert_eq!(get_all_pieceful_with_check_turns(&with_mate), vec![0, 2]);
    let without_mate = vec![
        turn("e4", PieceKind::Pawn, None, false, false),
        turn("Nf3+", PieceKind::Knight, None, true, false),
        turn("Qxf7#", PieceKind::Queen, Some(PieceKind::Pawn), false, true),
    ];
    assert_eq!(get_all_pieceful_with_check_turns(&without_mate), Vec::<usize>::new());
}

#[test]
fn pools_are_merged_without_repeats() {
    assert_eq!(merge_pools(&vec![1, 4], &vec![3, 4, 6, 7]), vec![1, 3, 4, 6, 7]);
    assert_eq!(merge_pools(&vec![2, 5], &vec![2, 5]), vec![2, 5]);
    assert_eq!(merge_pools(&Vec::new(), &vec![2, 5]), vec![2, 5]);
    assert_eq!(merge_pools(&vec![0], &Vec::new()), vec![0]);
    assert_eq!(merge_pools(&vec![8, 9], &vec![0, 1]), vec![0, 1, 8, 9]);
    assert_eq!(merge_pools(&Vec::new(), &Vec::new()), Vec::<usize>::new());
}

#[test]
fn pick_takes_an_entry_of_the_pool() {
    let pool = vec![7, 11, 13];
    let mut seen = [false; 3];
    for _ in 0..600 {
        let entry = pick(&pool);
        let place = pool.iter().position(|held| *held == entry);
        assert!(place.is_some());
        seen[place.unwrap()] = true;
    }
    assert_eq!(seen, [true, true, true]);
    assert_eq!(pick(&vec![42]), 42);
}

#[test]
fn aggressive_takes_any_checkmate() {
    let turns = mixed();
    assert_eq!(aggressive_candidates(&turns), vec![2, 5, 8]);
    assert_eq!(Player::Aggressive.candidates(&turns), vec![2, 5, 8]);
    for _ in 0..50 {
        let chosen = find_aggressive_turn(&turns);
        assert!(turns[chosen].is_checkmate);
        let chosen = Player::Aggressive.choose_turn(&turns);
        assert!(turns[chosen].is_checkmate);
    }
}

#[test]
fn aggressive_pools_checks_and_captures() {
    let turns = vec![
        turn("e4", PieceKind::Pawn, None, false, false),
        turn("Nf3+", PieceKind::Knight, None, true, false),
        turn("exd5", PieceKind::Pawn, Some(PieceKind::Pawn), false, false),
        turn("Bxc6+", PieceKind::Bishop, Some(PieceKind::Knight), true, false),
        turn("a3", PieceKind::Pawn, None, false, false),
    ];
    // Each candidate once, also the one that both checks and captures.
    assert_eq!(aggressive_candidates(&turns), vec![1, 2, 3]);
    let mut seen = [false; 5];
    for _ in 0..600 {
        seen[find_aggressive_turn(&turns)] = true;
    }
    assert_eq!(seen, [false, true, true, true, false]);
}

#[test]
fn aggressive_without_harm_takes_anything() {
    let turns = vec![
        turn("e4", PieceKind::Pawn, None, false, false),
        turn("a3", PieceKind::Pawn, None, false, false),
    ];
    assert_eq!(aggressive_candidates(&turns), vec![0, 1]);
}

#[test]
fn random_takes_anything() {
    let turns = mixed();
    assert_eq!(Player::Random.candidates(&turns), vec![0, 1, 2, 3, 4, 5, 6, 7, 8]);
    let mut seen = [false; 9];
    for _ in 0..2000 {
        seen[find_random_turn(turns.len())] = true;
    }
    assert_eq!(seen, [true; 9]);
}

#[test]
fn pacifist_takes_the_checkmate_that_captures_nothing() {
    let turns = mixed();
    assert_eq!(pieceful_candidates(&turns, false), vec![5]);
    assert_eq!(pieceful_candidates(&turns, true), vec![5]);
    for player in [Player::Pacifist, Player::SemiPacifist] {
        assert_eq!(player.candidates(&turns), vec![5]);
        let chosen = player.choose_turn(&turns);
        assert!(turns[chosen].is_checkmate && !turns[chosen].is_capture);
    }
    assert_eq!(find_pieceful_turn(&turns, PAWN_CAN_ATTACK_PAWNS), 5);
    assert_eq!(find_pieceful_turn(&turns, !PAWN_CAN_ATTACK_PAWNS), 5);
}

#[test]
fn semi_pacifist_adds_pawn_takes_pawn_to_the_peaceful_pool() {
    let turns = vec![
        turn("e4", PieceKind::Pawn, None, false, false),
        turn("exd5", PieceKind::Pawn, Some(PieceKind::Pawn), false, false),
        turn("Nf3+", PieceKind::Knight, None, true, false),
        turn("Nxe5", PieceKind::Knight, Some(PieceKind::Pawn), false, false),
        turn("cxb5", PieceKind::Pawn, Some(PieceKind::Pawn), false, false),
        turn("Qxf7#", PieceKind::Queen, Some(PieceKind::Pawn), false, true),
    ];
    let narrow = Player::Pacifist.candidates(&turns);
    let wide = Player::SemiPacifist.candidates(&turns);
    assert_eq!(narrow, vec![0, 2]);
    assert_eq!(wide, vec![0, 1, 2, 4]);
    for entry in &narrow {
        assert!(wide.contains(entry));
    }
}

#[test]
fn semi_pacifist_without_pawn_captures_is_a_pacifist() {
    let turns = vec![
        turn("e4", PieceKind::Pawn, None, false, false),
        turn("Nxe5", PieceKind::Knight, Some(PieceKind::Pawn), false, false),
    ];
    assert_eq!(Player::Pacifist.candidates(&turns), vec![0]);
    assert_eq!(Player::SemiPacifist.candidates(&turns), vec![0]);
}

#[test]
fn pacifist_captures_when_forced() {
    let turns = vec![
        turn("Qxf7#", PieceKind::Queen, Some(PieceKind::Pawn), false, true),
        turn("Nxe5", PieceKind::Knight, Some(PieceKind::Pawn), false, false),
        turn("Bxc6+", PieceKind::Bishop, Some(PieceKind::Knight), true, false),
    ];
    assert_eq!(Player::Pacifist.candidates(&turns), vec![1, 2]);
    assert_eq!(Player::SemiPacifist.candidates(&turns), vec![1, 2]);
}

#[test]
fn pacifist_mates_with_a_capture_when_nothing_else_is_left() {
    let turns = vec![
        turn("Qxf7#", PieceKind::Queen, Some(PieceKind::Pawn), false, true),
        turn("dxe8=Q#", PieceKind::Pawn, Some(PieceKind::Pawn), false, true),
    ];
    assert_eq!(Player::Pacifist.candidates(&turns), vec![0, 1]);
    assert_eq!(Player::SemiPacifist.candidates(&turns), vec![0, 1]);
}

#[test]
fn decide_aggressive_takes_the_checkmate() {
    let moves = vec![legal("Qxf7#", Some(PieceKind::Pawn)), legal("Nf3", None)];
    for _ in 0..50 {
        assert_eq!(Player::Aggressive.decide_next_turn(&moves), Ok(String::from("Qxf7#")));
    }
}

#[test]
fn decide_pacifist_leaves_the_capture() {
    let moves = vec![legal("Bxd5", Some(PieceKind::Pawn)), legal("e4", None)];
    for _ in 0..50 {
        assert_eq!(Player::Pacifist.decide_next_turn(&moves), Ok(String::from("e4")));
        // A bishop is no pawn: the capture stays out for the semi-pacifist too.
        assert_eq!(Player::SemiPacifist.decide_next_turn(&moves), Ok(String::from("e4")));
    }
}

#[test]
fn decide_semi_pacifist_lets_a_pawn_take_a_pawn() {
    let mut turns = classify_all(&vec![legal("Bxd5", Some(PieceKind::Pawn)), legal("e4", None)])
        .unwrap();
    turns[0].mover_kind = PieceKind::Pawn;
    assert_eq!(Player::SemiPacifist.candidates(&turns), vec![0, 1]);
    assert_eq!(Player::Pacifist.candidates(&turns), vec![1]);

    let moves = vec![legal("cxd5", Some(PieceKind::Pawn)), legal("e4", None)];
    let mut seen = [false; 2];
    for _ in 0..400 {
        let notation = Player::SemiPacifist.decide_next_turn(&moves).unwrap();
        assert!(notation == "cxd5" || notation == "e4");
        seen[if notation == "e4" { 1 } else { 0 }] = true;
    }
    assert_eq!(seen, [true, true]);
}

#[test]
fn decide_returns_one_of_the_moves() {
    let moves = vec![
        legal("e4", None),
        legal("Nf3", None),
        legal("exd5", Some(PieceKind::Pawn)),
        legal("Bb5+", None),
        legal("O-O", None),
        legal("Qxd8+", Some(PieceKind::Queen)),
    ];
    for player in PLAYERS {
        for _ in 0..100 {
            let notation = player.decide_next_turn(&moves).unwrap();
            assert!(moves.iter().any(|legal| legal.notation == notation));
        }
    }
}

#[test]
fn decide_with_one_move_takes_it() {
    let moves = vec![legal("Kxh2", Some(PieceKind::Rook))];
    for player in PLAYERS {
        assert_eq!(player.decide_next_turn(&moves), Ok(String::from("Kxh2")));
    }
}

#[test]
fn decide_fails_on_malformed_notation() {
    let moves = vec![legal("e4", None), legal("bad", None), legal("0-0x", None)];
    for player in [Player::Aggressive, Player::Pacifist, Player::SemiPacifist] {
        assert_eq!(
            player.decide_next_turn(&moves),
            Err(MalformedNotation { notation: String::from("bad") })
        );
    }
}

#[test]
fn decide_at_random_reads_no_notation() {
    let moves = vec![legal("e4", None), legal("bad", None), legal("0-0x", None)];
    let mut seen = [false; 3];
    for _ in 0..600 {
        let notation = Player::Random.decide_next_turn(&moves).unwrap();
        let place = moves.iter().position(|legal| legal.notation == notation);
        seen[place.unwrap()] = true;
    }
    assert_eq!(seen, [true, true, true]);
    assert_eq!(find_random_turn(1), 0);
}
