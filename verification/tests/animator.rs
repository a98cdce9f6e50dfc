use chess_sim::game_animator::{AnimationStep, GameAnimator};
use chess_turn_engine::{ChessTurnEngine, DisplayOption, Setup, ViewMode};

fn animate(animator: &GameAnimator, game: &mut ChessTurnEngine, turn: &str) -> Vec<AnimationStep> {
    let fancy_display = DisplayOption::BoardView(ViewMode::FancyTui);
    let before_turn = game.display(fancy_display);
    if let Err(e) = game.play_turn(turn) {
        panic!("Unexpected error: {}", e)
    }
    let after_turn = game.display(fancy_display);
    let capture_history = game.display(DisplayOption::CaptureHistory);
    animator.play_turn(&before_turn, &after_turn, &capture_history)
}

fn time_asleep(steps: &[AnimationStep]) -> u64 {
    let mut total = 0;
    for step in steps {
        if let AnimationStep::Sleep(time) = step {
            total += *time;
        }
    }
    total
}

#[test]
fn basic_functionality_works() {
    let duration = 100;
    let animator = GameAnimator::new(duration);

    assert_eq!(animator.frame_duration(), duration);

    // Manually calculated :-)
    assert_eq!(animator.animation_duration(), duration * 20);

    let mut game = ChessTurnEngine::new(Setup::Normal).unwrap();
    // Let's play two turns
    let first = animate(&animator, &mut game, "d4");
    let second = animate(&animator, &mut game, "d5");
    assert_eq!(first.len(), 13);
    assert_eq!(second.len(), 13);
    assert_eq!(time_asleep(&first), duration * 20);
    assert_eq!(time_asleep(&second), duration * 20);
    assert_ne!(first[0], first[2]);
    assert_eq!(first[2], second[0]);
}

#[test]
fn total_duration_is_twenty_frames() {
    assert_eq!(GameAnimator::new(100).animation_duration(), 2000);
    assert_eq!(GameAnimator::new(50000).animation_duration(), 1000000);
    assert_eq!(GameAnimator::new(1).animation_duration(), 20);
    assert_eq!(GameAnimator::new(7).animation_duration(), 140);
}

#[test]
fn largest_frame_duration_fits() {
    let largest = u64::MAX / 20;
    let animator = GameAnimator::new(largest);
    assert_eq!(animator.frame_duration(), largest);
    assert_eq!(animator.animation_duration(), largest * 20);
}

#[test]
fn frame_duration_is_kept() {
    assert_eq!(GameAnimator::new(50000).frame_duration(), 50000);
    assert_eq!(GameAnimator::new(1).frame_duration(), 1);
}

#[test]
fn play_turn_gives_three_rounds_and_a_pause() {
    let animator = GameAnimator::new(100);
    let steps = animator.play_turn("before\n", "after\n", "captured: -");
    let show_before = AnimationStep::Display(String::from("before\ncaptured: -"));
    let show_after = AnimationStep::Display(String::from("after\ncaptured: -"));
    let expected = vec![
        show_before.clone(),
        AnimationStep::Sleep(200),
        show_after.clone(),
        AnimationStep::Sleep(300),
        show_before.clone(),
        AnimationStep::Sleep(200),
        show_after.clone(),
        AnimationStep::Sleep(300),
        show_before,
        AnimationStep::Sleep(200),
        show_after,
        AnimationStep::Sleep(300),
        AnimationStep::Sleep(500),
    ];
    assert_eq!(steps, expected);
}

#[test]
fn play_turn_sleeps_for_the_animation_duration() {
    for unit in [1u64, 3, 100, 50000] {
        let animator = GameAnimator::new(unit);
        let steps = animator.play_turn("a", "b", "c");
        assert_eq!(time_asleep(&steps), animator.animation_duration());
        assert_eq!(time_asleep(&steps), 20 * unit);
    }
}

#[test]
fn play_turn_with_empty_texts() {
    let animator = GameAnimator::new(2);
    let steps = animator.play_turn("", "", "");
    assert_eq!(steps.len(), 13);
    assert_eq!(steps[0], AnimationStep::Display(String::new()));
    assert_eq!(steps[1], AnimationStep::Sleep(4));
    assert_eq!(steps[3], AnimationStep::Sleep(6));
    assert_eq!(steps[12], AnimationStep::Sleep(10));
}
