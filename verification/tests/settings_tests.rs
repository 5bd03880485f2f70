//! Game-level and per-question settings updates.

use trivia_core::game::Game;
use trivia_core::types::{
    GameSettings, McConfig, QuestionConfig, QuestionKind, TeamColor,
};

fn new_game() -> Game {
    Game::new("QRST".to_string(), "host-1".to_string())
}

fn settings(timer: u32, points: u32, bonus: u32) -> GameSettings {
    GameSettings {
        default_timer_duration: timer,
        default_question_points: points,
        default_bonus_increment: bonus,
        default_question_type: QuestionKind::Standard,
        default_mc_config: McConfig::new(),
        speed_bonus_enabled: false,
        speed_bonus_num_teams: 2,
        speed_bonus_first_place_points: 10,
    }
}

fn join(g: &mut Game, name: &str) {
    g.add_team(
        name.to_string(),
        TeamColor { hex_code: "#65A30D".to_string(), name: "Lime".to_string() },
        vec![],
    );
}

#[test]
fn update_game_settings_changes_defaults() {
    let mut g = new_game();
    g.update_game_settings(settings(60, 100, 10));
    assert_eq!(g.game_settings.default_timer_duration, 60);
    assert_eq!(g.game_settings.default_question_points, 100);
    assert_eq!(g.game_settings.default_bonus_increment, 10);
    assert_eq!(g.game_settings.default_question_type, QuestionKind::Standard);
}

#[test]
fn update_game_settings_propagates_to_unanswered_questions() {
    let mut g = new_game();
    g.next_question();
    g.update_game_settings(settings(45, 75, 15));
    for q in 0..2 {
        assert_eq!(g.questions[q].timer_duration, 45);
        assert_eq!(g.questions[q].question_points, 75);
        assert_eq!(g.questions[q].bonus_increment, 15);
    }
    // The countdown follows the new default: the current question is
    // unanswered and the timer is stopped.
    assert_eq!(g.timer_seconds_remaining, Some(45));
}

#[test]
fn update_game_settings_does_not_change_answered_questions() {
    let mut g = new_game();
    join(&mut g, "T1");
    g.start_timer();
    assert!(g.add_answer("T1", "locked in".to_string()));
    g.pause_timer();
    g.next_question();
    g.update_game_settings(settings(90, 200, 25));
    // The answered first question keeps its settings.
    assert_eq!(g.questions[0].timer_duration, 30);
    assert_eq!(g.questions[0].question_points, 50);
    assert_eq!(g.questions[0].bonus_increment, 5);
    // The unanswered second question takes the new defaults.
    assert_eq!(g.questions[1].timer_duration, 90);
    assert_eq!(g.questions[1].question_points, 200);
    assert_eq!(g.questions[1].bonus_increment, 25);
}

#[test]
fn update_question_settings_changes_specific_question() {
    let mut g = new_game();
    assert!(g
        .update_question_settings(1, 120, 150, 20, QuestionKind::Standard, false)
        .is_ok());
    assert_eq!(g.questions[0].timer_duration, 120);
    assert_eq!(g.questions[0].question_points, 150);
    assert_eq!(g.questions[0].bonus_increment, 20);
    // The current question's countdown follows while the timer is stopped.
    assert_eq!(g.timer_seconds_remaining, Some(120));
}

#[test]
fn update_question_settings_fails_when_question_has_answers() {
    let mut g = new_game();
    join(&mut g, "T1");
    g.start_timer();
    assert!(g.add_answer("T1", "x".to_string()));
    g.pause_timer();
    let r = g.update_question_settings(1, 60, 100, 10, QuestionKind::Standard, false);
    assert_eq!(r, Err("Cannot update settings for a question that has answers"));
    assert_eq!(g.questions[0].timer_duration, 30);
}

#[test]
fn update_question_settings_fails_for_nonexistent_question() {
    let mut g = new_game();
    let r = g.update_question_settings(5, 60, 100, 10, QuestionKind::Standard, false);
    assert_eq!(r, Err("Question does not exist"));
    let r0 = g.update_question_settings(0, 60, 100, 10, QuestionKind::Standard, false);
    assert_eq!(r0, Err("Question does not exist"));
}

#[test]
fn new_questions_use_updated_game_settings() {
    let mut g = new_game();
    g.update_game_settings(settings(90, 200, 25));
    g.next_question();
    assert_eq!(g.questions[1].timer_duration, 90);
    assert_eq!(g.questions[1].question_points, 200);
    assert_eq!(g.questions[1].bonus_increment, 25);
    assert_eq!(g.timer_seconds_remaining, Some(90));
}

#[test]
fn changing_question_kind_swaps_in_default_config() {
    let mut g = new_game();
    assert!(matches!(g.questions[0].question_config, QuestionConfig::Standard));
    assert!(g
        .update_question_settings(1, 30, 50, 5, QuestionKind::MultipleChoice, false)
        .is_ok());
    assert_eq!(g.questions[0].question_kind, QuestionKind::MultipleChoice);
    assert!(matches!(g.questions[0].question_config, QuestionConfig::MultipleChoice(_)));
}

#[test]
fn update_type_specific_settings_replaces_config() {
    let mut g = new_game();
    assert!(g
        .update_question_settings(1, 30, 50, 5, QuestionKind::MultipleChoice, false)
        .is_ok());
    let config = QuestionConfig::MultipleChoice(McConfig {
        choices: vec!["Paris".to_string(), "Rome".to_string()],
    });
    assert!(g.update_type_specific_settings(1, config).is_ok());
    match &g.questions[0].question_config {
        QuestionConfig::MultipleChoice(mc) => {
            assert_eq!(mc.choices, vec!["Paris".to_string(), "Rome".to_string()]);
        }
        other => panic!("expected a multiple-choice config, got {other:?}"),
    }
}

#[test]
fn update_type_specific_settings_rejects_kind_mismatch() {
    let mut g = new_game();
    let config = QuestionConfig::MultipleChoice(McConfig { choices: vec![] });
    let r = g.update_type_specific_settings(1, config);
    assert_eq!(r, Err("Question config does not match the question type"));
}

#[test]
fn update_type_specific_settings_rejects_answered_question() {
    let mut g = new_game();
    join(&mut g, "T1");
    g.start_timer();
    assert!(g.add_answer("T1", "x".to_string()));
    g.pause_timer();
    let r = g.update_type_specific_settings(1, QuestionConfig::Standard);
    assert_eq!(r, Err("Cannot update settings for a question that has answers"));
}

#[test]
fn update_type_specific_settings_rejects_nonexistent_question() {
    let mut g = new_game();
    let r = g.update_type_specific_settings(9, QuestionConfig::Standard);
    assert_eq!(r, Err("Question does not exist"));
}

#[test]
fn settings_update_keeps_countdown_while_timer_runs() {
    let mut g = new_game();
    g.start_timer();
    g.update_game_settings(settings(45, 75, 15));
    // The running timer's countdown is untouched.
    assert_eq!(g.timer_seconds_remaining, Some(30));
    assert!(g.timer_running);
}
