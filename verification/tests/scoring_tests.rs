//! Submission and scoring: auto-scoring, propagation, speed bonuses, and
//! team totals.

use trivia_core::game::{Game, TickOutcome};
use trivia_core::score::ScoreData;
use trivia_core::types::{GameSettings, McConfig, QuestionKind, TeamColor};

fn score(qp: i32, bp: i32) -> ScoreData {
    ScoreData { question_points: qp, bonus_points: bp, speed_bonus_points: 0, override_points: 0 }
}

fn color() -> TeamColor {
    TeamColor { hex_code: "#DC2626".to_string(), name: "Red".to_string() }
}

fn game_with_teams(names: &[&str]) -> Game {
    let mut g = Game::new("ABCD".to_string(), "host-1".to_string());
    for n in names {
        g.add_team(n.to_string(), color(), vec![]);
    }
    g
}

fn answer_of(g: &Game, q: usize, team: &str) -> ScoreData {
    let idx = g.questions[q].find_answer(team).expect("answer should exist");
    g.questions[q].answers[idx].score
}

fn team_score(g: &Game, team: &str) -> ScoreData {
    let idx = g.find_team(team).expect("team should exist");
    g.teams[idx].score
}

#[test]
fn scoring_correct_auto_scores_matching_answers() {
    let mut g = game_with_teams(&["Team1", "Team2", "Team3"]);
    g.start_timer();
    assert!(g.add_answer("Team1", "Steve".to_string()));
    assert!(g.add_answer("Team2", "Martin".to_string()));
    assert!(g.add_answer("Team3", "Steve".to_string()));
    g.pause_timer();

    assert!(g.score_answer(1, "Team1", score(50, 10)));

    assert_eq!(answer_of(&g, 0, "Team1").question_points, 50);
    assert_eq!(answer_of(&g, 0, "Team1").bonus_points, 10);
    // The matching answer takes the full written score, bonus included.
    assert_eq!(answer_of(&g, 0, "Team3").question_points, 50);
    assert_eq!(answer_of(&g, 0, "Team3").bonus_points, 10);
    // A different answer is untouched.
    assert_eq!(answer_of(&g, 0, "Team2").question_points, 0);
    assert_eq!(answer_of(&g, 0, "Team2").bonus_points, 0);

    assert_eq!(team_score(&g, "Team1").question_points, 50);
    assert_eq!(team_score(&g, "Team1").bonus_points, 10);
    assert_eq!(team_score(&g, "Team3").question_points, 50);
    assert_eq!(team_score(&g, "Team3").bonus_points, 10);
    assert_eq!(team_score(&g, "Team2").question_points, 0);
    assert_eq!(team_score(&g, "Team1").get_score(), 60);
    assert_eq!(team_score(&g, "Team3").get_score(), 60);
    assert_eq!(team_score(&g, "Team2").get_score(), 0);
}

#[test]
fn auto_scoring_is_case_insensitive_and_trims_whitespace() {
    let mut g = game_with_teams(&["Team1", "Team2", "Team3"]);
    g.start_timer();
    assert!(g.add_answer("Team1", "Steve".to_string()));
    assert!(g.add_answer("Team2", "  STEVE  ".to_string()));
    assert!(g.add_answer("Team3", "sTeVe".to_string()));
    g.pause_timer();

    assert!(g.score_answer(1, "Team1", score(50, 0)));

    for name in ["Team1", "Team2", "Team3"] {
        assert_eq!(answer_of(&g, 0, name).question_points, 50, "{name} should be auto-scored");
    }
}

#[test]
fn clearing_score_clears_matching_answers() {
    let mut g = game_with_teams(&["Team1", "Team2"]);
    g.start_timer();
    assert!(g.add_answer("Team1", "Answer".to_string()));
    assert!(g.add_answer("Team2", "Answer".to_string()));
    g.pause_timer();

    assert!(g.score_answer(1, "Team1", score(50, 0)));
    assert_eq!(answer_of(&g, 0, "Team1").question_points, 50);
    assert_eq!(answer_of(&g, 0, "Team2").question_points, 50);

    assert!(g.clear_answer_score(1, "Team1"));
    assert_eq!(answer_of(&g, 0, "Team1").question_points, 0);
    assert_eq!(answer_of(&g, 0, "Team2").question_points, 0);
    assert_eq!(team_score(&g, "Team1").question_points, 0);
    assert_eq!(team_score(&g, "Team2").question_points, 0);
}

#[test]
fn new_submission_auto_scored_if_matches_existing_correct() {
    let mut g = game_with_teams(&["Team1", "Team2"]);
    g.start_timer();
    assert!(g.add_answer("Team1", "Answer".to_string()));
    g.pause_timer();
    assert!(g.score_answer(1, "Team1", score(50, 5)));
    g.start_timer();
    // Case-insensitive match against the scored answer.
    assert!(g.add_answer("Team2", "answer".to_string()));
    g.pause_timer();

    // The new answer inherits the matched answer's points and bonus.
    assert_eq!(answer_of(&g, 0, "Team2").question_points, 50);
    assert_eq!(answer_of(&g, 0, "Team2").bonus_points, 5);
    assert_eq!(team_score(&g, "Team2").question_points, 50);
    assert_eq!(team_score(&g, "Team2").bonus_points, 5);
}

#[test]
fn partial_points_do_not_trigger_auto_scoring() {
    let mut g = game_with_teams(&["Team1", "Team2"]);
    g.start_timer();
    assert!(g.add_answer("Team1", "Answer".to_string()));
    g.pause_timer();
    // Partial credit: not "fully correct".
    assert!(g.score_answer(1, "Team1", score(25, 0)));
    g.start_timer();
    assert!(g.add_answer("Team2", "Answer".to_string()));
    g.pause_timer();

    assert_eq!(answer_of(&g, 0, "Team1").question_points, 25);
    assert_eq!(
        answer_of(&g, 0, "Team2").question_points,
        0,
        "partial points should not trigger auto-scoring"
    );
}

#[test]
fn different_answers_not_affected_by_auto_scoring() {
    let mut g = game_with_teams(&["Team1", "Team2", "Team3"]);
    g.start_timer();
    assert!(g.add_answer("Team1", "Apple".to_string()));
    assert!(g.add_answer("Team2", "Banana".to_string()));
    assert!(g.add_answer("Team3", "Cherry".to_string()));
    g.pause_timer();

    assert!(g.score_answer(1, "Team1", score(50, 0)));
    assert_eq!(answer_of(&g, 0, "Team1").question_points, 50);
    assert_eq!(answer_of(&g, 0, "Team2").question_points, 0);
    assert_eq!(answer_of(&g, 0, "Team3").question_points, 0);

    assert!(g.score_answer(1, "Team1", score(0, 0)));
    assert_eq!(answer_of(&g, 0, "Team2").question_points, 0);
    assert_eq!(answer_of(&g, 0, "Team3").question_points, 0);
}

#[test]
fn scoring_overwrites_matching_scored_answers() {
    // Writing a score to either of two matching answers leaves both with
    // exactly the written points and bonus.
    let mut g = game_with_teams(&["Team1", "Team2"]);
    g.start_timer();
    assert!(g.add_answer("Team1", "Answer".to_string()));
    assert!(g.add_answer("Team2", "Answer".to_string()));
    g.pause_timer();

    assert!(g.score_answer(1, "Team2", score(50, 15)));
    assert_eq!(answer_of(&g, 0, "Team1").bonus_points, 15);

    assert!(g.score_answer(1, "Team1", score(50, 5)));
    assert_eq!(answer_of(&g, 0, "Team1").bonus_points, 5);
    assert_eq!(answer_of(&g, 0, "Team2").bonus_points, 5);
    assert_eq!(answer_of(&g, 0, "Team1").question_points, 50);
    assert_eq!(answer_of(&g, 0, "Team2").question_points, 50);
}

#[test]
fn basic_submission_and_scoring_flow() {
    // Host creates "ABCD"; "T1" joins; timer starts; "42" is submitted and
    // scored 50: the host view totals 50 and the team view carries the
    // answer text.
    let mut g = Game::new("ABCD".to_string(), "host-1".to_string());
    g.add_team("T1".to_string(), color(), vec![]);
    g.start_timer();
    assert!(g.add_answer("T1", "42".to_string()));
    assert!(g.score_answer(1, "T1", score(50, 0)));

    let host_view = g.to_game_state();
    assert_eq!(host_view.teams[0].score.get_score(), 50);

    let team_view = g.to_team_game_state("T1").expect("team exists");
    match &team_view.questions[0].content {
        Some(trivia_core::types::AnswerContent::Standard { answer_text }) => {
            assert_eq!(answer_text, "42");
        }
        other => panic!("expected a standard answer, got {other:?}"),
    }
    assert_eq!(team_view.questions[0].score.question_points, 50);
}

fn speed_settings() -> GameSettings {
    GameSettings {
        default_timer_duration: 30,
        default_question_points: 50,
        default_bonus_increment: 5,
        default_question_type: QuestionKind::Standard,
        default_mc_config: McConfig::new(),
        speed_bonus_enabled: true,
        speed_bonus_num_teams: 3,
        speed_bonus_first_place_points: 10,
    }
}

#[test]
fn speed_bonus_awarded_by_submission_order() {
    let mut g = game_with_teams(&["A", "B", "C", "D"]);
    g.update_game_settings(speed_settings());
    g.start_timer();
    assert!(g.add_answer("A", "ant".to_string()));
    assert!(g.add_answer("B", "bee".to_string()));
    assert!(g.add_answer("C", "cat".to_string()));
    g.pause_timer();
    assert!(g.score_answer(1, "A", score(50, 0)));
    assert!(g.score_answer(1, "B", score(50, 0)));
    assert!(g.score_answer(1, "C", score(50, 0)));

    // 10 * (3 - place) / 3 for places 0, 1, 2.
    assert_eq!(answer_of(&g, 0, "A").speed_bonus_points, 10);
    assert_eq!(answer_of(&g, 0, "B").speed_bonus_points, 6);
    assert_eq!(answer_of(&g, 0, "C").speed_bonus_points, 3);
    assert_eq!(team_score(&g, "A").speed_bonus_points, 10);

    // A fourth correct answer is past the rewarded places.
    g.start_timer();
    assert!(g.add_answer("D", "dog".to_string()));
    g.pause_timer();
    assert!(g.score_answer(1, "D", score(50, 0)));
    assert_eq!(answer_of(&g, 0, "D").speed_bonus_points, 0);
}

#[test]
fn speed_bonus_skips_uncredited_answers() {
    let mut g = game_with_teams(&["A", "B", "C"]);
    g.update_game_settings(speed_settings());
    g.start_timer();
    assert!(g.add_answer("A", "wrong".to_string()));
    assert!(g.add_answer("B", "right".to_string()));
    assert!(g.add_answer("C", "also right".to_string()));
    g.pause_timer();
    // A stays at zero; B and C take places 0 and 1.
    assert!(g.score_answer(1, "B", score(50, 0)));
    assert!(g.score_answer(1, "C", score(50, 0)));

    assert_eq!(answer_of(&g, 0, "A").speed_bonus_points, 0);
    assert_eq!(answer_of(&g, 0, "B").speed_bonus_points, 10);
    assert_eq!(answer_of(&g, 0, "C").speed_bonus_points, 6);
}

#[test]
fn speed_bonus_parameters_are_read_at_computation_time() {
    let mut g = game_with_teams(&["A", "B"]);
    g.update_game_settings(speed_settings());
    g.start_timer();
    assert!(g.add_answer("A", "x".to_string()));
    assert!(g.add_answer("B", "y".to_string()));
    g.pause_timer();
    assert!(g.score_answer(1, "A", score(50, 0)));
    assert_eq!(answer_of(&g, 0, "A").speed_bonus_points, 10);

    // The numeric parameters are game-level: changing them recomputes every
    // question's bonuses.
    let mut settings = speed_settings();
    settings.speed_bonus_first_place_points = 20;
    g.update_game_settings(settings);
    assert_eq!(answer_of(&g, 0, "A").speed_bonus_points, 20);
    assert_eq!(team_score(&g, "A").speed_bonus_points, 20);

    // The enabled flag is per-question and an answered question keeps it,
    // so disabling the default leaves this question's bonuses standing.
    let mut settings = speed_settings();
    settings.speed_bonus_enabled = false;
    g.update_game_settings(settings);
    assert!(g.questions[0].speed_bonus_enabled);
    assert_eq!(answer_of(&g, 0, "A").speed_bonus_points, 10);
    // A fresh question created now has speed bonuses off.
    g.next_question();
    assert!(!g.questions[1].speed_bonus_enabled);
}

#[test]
fn score_answer_fails_for_unknown_team_or_question() {
    let mut g = game_with_teams(&["A"]);
    g.start_timer();
    assert!(g.add_answer("A", "x".to_string()));
    g.pause_timer();
    assert!(!g.score_answer(1, "Nobody", score(50, 0)));
    assert!(!g.score_answer(0, "A", score(50, 0)));
    assert!(!g.score_answer(2, "A", score(50, 0)));
    assert!(g.score_answer(1, "A", score(50, 0)));
}

#[test]
fn override_points_are_independent_of_derived_totals() {
    let mut g = game_with_teams(&["A"]);
    g.start_timer();
    assert!(g.add_answer("A", "x".to_string()));
    g.pause_timer();
    assert!(g.score_answer(1, "A", score(50, 5)));
    assert!(g.override_team_score("A", 100));
    let s = team_score(&g, "A");
    assert_eq!(s.question_points, 50);
    assert_eq!(s.bonus_points, 5);
    assert_eq!(s.override_points, 100);
    assert_eq!(s.get_score(), 155);
    // Re-scoring leaves the override alone.
    assert!(g.clear_answer_score(1, "A"));
    assert_eq!(team_score(&g, "A").override_points, 100);
    assert!(!g.override_team_score("Nobody", 7));
}

#[test]
fn duplicate_submission_blocked_regardless_of_case() {
    let mut g = game_with_teams(&["TeamOne"]);
    g.start_timer();
    assert!(g.add_answer("TeamOne", "first".to_string()));
    assert!(!g.add_answer("TEAMONE", "second".to_string()));
    assert!(!g.add_answer("teamone", "third".to_string()));
    assert_eq!(g.questions[0].answers.len(), 1);
}

#[test]
fn multi_answer_questions_reject_submissions() {
    let mut g = game_with_teams(&["A"]);
    assert!(g
        .update_question_settings(1, 30, 50, 5, QuestionKind::MultiAnswer, false)
        .is_ok());
    g.start_timer();
    assert!(!g.add_answer("A", "x".to_string()));
}

#[test]
fn multiple_choice_submissions_auto_score_on_selection() {
    let mut g = game_with_teams(&["A", "B"]);
    assert!(g
        .update_question_settings(1, 30, 50, 5, QuestionKind::MultipleChoice, false)
        .is_ok());
    g.start_timer();
    assert!(g.add_answer("A", "Paris".to_string()));
    assert!(g.add_answer("B", " PARIS ".to_string()));
    g.pause_timer();
    assert!(g.score_answer(1, "A", score(50, 0)));
    // The matching selection is scored with the target.
    assert_eq!(answer_of(&g, 0, "B").question_points, 50);
    match &g.questions[0].answers[0].content {
        Some(trivia_core::types::AnswerContent::MultipleChoice { selected }) => {
            assert_eq!(selected, "Paris");
        }
        other => panic!("expected a multiple-choice answer, got {other:?}"),
    }
}

#[test]
fn team_with_capital_letters_scores_correctly() {
    let mut g = game_with_teams(&["MyTeam"]);
    g.start_timer();
    assert!(g.add_answer("MyTeam", "x".to_string()));
    g.pause_timer();
    // Case-insensitive lookups for scoring.
    assert!(g.score_answer(1, "MYTEAM", score(50, 0)));
    assert_eq!(team_score(&g, "myteam").question_points, 50);
}

#[test]
fn team_total_score_accumulates_across_questions_with_capitals() {
    let mut g = game_with_teams(&["CapsTeam"]);
    g.start_timer();
    assert!(g.add_answer("CAPSTEAM", "one".to_string()));
    g.next_question();
    g.start_timer();
    assert!(g.add_answer("capsteam", "two".to_string()));
    g.pause_timer();
    assert!(g.score_answer(1, "CapsTeam", score(50, 5)));
    assert!(g.score_answer(2, "CapsTeam", score(25, 0)));
    let s = team_score(&g, "CapsTeam");
    assert_eq!(s.question_points, 75);
    assert_eq!(s.bonus_points, 5);
}

#[test]
fn duplicate_submission_reports_already_submitted() {
    let mut g = game_with_teams(&["T1"]);
    g.start_timer();
    assert!(g.add_answer("T1", "first".to_string()));
    let out = trivia_core::handler::process_team_action(
        &mut g,
        trivia_core::messages::TeamAction::SubmitAnswer {
            team_name: "T1".to_string(),
            answer: "second".to_string(),
        },
        "T1",
    );
    match out.reply {
        trivia_core::messages::ServerMessage::Error { message, .. } => {
            assert_eq!(message, "Answer already submitted");
        }
        other => panic!("expected an error, got {other:?}"),
    }
}

#[test]
fn in_loop_join_game_is_refused() {
    let mut g = game_with_teams(&["T1"]);
    let out = trivia_core::handler::process_team_action(
        &mut g,
        trivia_core::messages::TeamAction::JoinGame {
            team_name: "T2".to_string(),
            game_code: "ABCD".to_string(),
            color_hex: "#FFFFFF".to_string(),
            color_name: "White".to_string(),
            team_members: vec![],
        },
        "T1",
    );
    match out.reply {
        trivia_core::messages::ServerMessage::Error { message, .. } => {
            assert_eq!(message, "Game already joined");
        }
        other => panic!("expected an error, got {other:?}"),
    }
}

#[test]
fn timer_expiry_closes_submissions() {
    // A one-second question expires after one tick; the submission is then
    // rejected and the host view shows the stopped timer.
    let mut g = game_with_teams(&["T1"]);
    assert!(g
        .update_question_settings(1, 1, 50, 5, QuestionKind::Standard, false)
        .is_ok());
    assert_eq!(g.timer_seconds_remaining, Some(1));
    assert!(g.start_timer());
    assert_eq!(g.tick(), TickOutcome::Expired);
    assert!(!g.timer_running);
    assert_eq!(g.timer_seconds_remaining, Some(0));

    let out = trivia_core::handler::process_team_action(
        &mut g,
        trivia_core::messages::TeamAction::SubmitAnswer {
            team_name: "T1".to_string(),
            answer: "late".to_string(),
        },
        "T1",
    );
    match out.reply {
        trivia_core::messages::ServerMessage::Error { message, .. } => {
            assert!(message.contains("closed"), "got: {message}");
        }
        other => panic!("expected an error, got {other:?}"),
    }
}
