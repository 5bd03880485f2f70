//! Unit tests: normalization, clamped arithmetic, heartbeats, auth
//! decisions, token extraction, demo data, and fan-out plans.

use trivia_core::auth::{auth_from_claims, extract_token_from_query, CognitoValidator};
use trivia_core::fake_data::fake_game_state;
use trivia_core::game::Game;
use trivia_core::handler::process_host_action;
use trivia_core::heartbeat::HeartbeatState;
use trivia_core::messages::{HostAction, ServerMessage};
use trivia_core::norm::{keys_equal, names_equal, str_eq};
use trivia_core::score::{add_clamped, ScoreData};
use trivia_core::types::{Question, QuestionConfig, QuestionKind, TeamColor};

#[test]
fn name_comparison_folds_ascii_case_only() {
    assert!(names_equal("Team One", "tEAM oNE"));
    assert!(names_equal("ABC", "abc"));
    assert!(!names_equal("Team One", "TeamOne"));
    assert!(!names_equal("Team One", " Team One"));
    // Non-ASCII letters are compared as they are.
    assert!(names_equal("café", "CAFé"));
    assert!(!names_equal("café", "CAFÉ"));
}

#[test]
fn answer_keys_trim_and_fold() {
    assert!(keys_equal("Steve", "  STEVE "));
    assert!(keys_equal("\tsteve\r\n", "Steve"));
    assert!(keys_equal("  ", ""));
    assert!(!keys_equal("Steve", "Steven"));
    assert!(!keys_equal("a b", "ab"));
}

#[test]
fn exact_string_equality() {
    assert!(str_eq("abc", "abc"));
    assert!(!str_eq("abc", "ABC"));
    assert!(!str_eq("abc", "abcd"));
    assert!(str_eq("", ""));
}

#[test]
fn clamped_addition_saturates_at_the_ends() {
    assert_eq!(add_clamped(1, 2), 3);
    assert_eq!(add_clamped(i32::MAX, 1), i32::MAX);
    assert_eq!(add_clamped(i32::MIN, -1), i32::MIN);
    assert_eq!(add_clamped(i32::MAX, i32::MIN), -1);
}

#[test]
fn get_score_totals_all_four_components() {
    let s = ScoreData { question_points: 50, bonus_points: 10, speed_bonus_points: 6, override_points: -3 };
    assert_eq!(s.get_score(), 63);
    assert_eq!(ScoreData::new().get_score(), 0);
    let big = ScoreData {
        question_points: i32::MAX,
        bonus_points: i32::MAX,
        speed_bonus_points: 0,
        override_points: 0,
    };
    assert_eq!(big.get_score(), i32::MAX);
}

#[test]
fn heartbeat_times_out_after_ten_seconds() {
    let mut hb = HeartbeatState::new(1000);
    assert!(hb.is_alive(1000));
    assert!(hb.is_alive(10999));
    assert!(!hb.is_alive(11000));
    hb.record_pong(11000);
    assert!(hb.is_alive(20999));
    assert!(!hb.is_alive(21000));
}

#[test]
fn generated_codes_are_four_uppercase_letters() {
    for _ in 0..16 {
        let code = trivia_core::codes::generate_code();
        assert_eq!(code.len(), 4);
        assert!(code.chars().all(|c| c.is_ascii_uppercase()));
    }
}

#[test]
fn auth_rejects_wrong_token_use_and_client() {
    let r = auth_from_claims(
        "user-1".to_string(),
        vec![],
        "id",
        "client-a",
        "client-a",
    );
    assert_eq!(r.unwrap_err(), "Invalid token_use: expected 'access'");
    let r = auth_from_claims(
        "user-1".to_string(),
        vec![],
        "access",
        "client-b",
        "client-a",
    );
    assert_eq!(r.unwrap_err(), "Invalid client_id");
}

#[test]
fn auth_grants_host_only_to_hosts_group() {
    let r = auth_from_claims(
        "user-1".to_string(),
        vec!["Players".to_string(), "Trivia-Hosts".to_string()],
        "access",
        "client-a",
        "client-a",
    )
    .unwrap();
    assert_eq!(r.user_id, "user-1");
    assert!(r.is_host);

    let r = auth_from_claims(
        "user-2".to_string(),
        vec!["Players".to_string()],
        "access",
        "client-a",
        "client-a",
    )
    .unwrap();
    assert!(!r.is_host);
}

#[test]
fn cognito_urls_are_derived_from_pool() {
    let v = CognitoValidator::new(
        "us-east-1".to_string(),
        "us-east-1_Pool1".to_string(),
        "client-a".to_string(),
    );
    assert_eq!(
        v.jwks_url(),
        "https://cognito-idp.us-east-1.amazonaws.com/us-east-1_Pool1/.well-known/jwks.json"
    );
    assert_eq!(
        v.expected_issuer(),
        "https://cognito-idp.us-east-1.amazonaws.com/us-east-1_Pool1"
    );
}

#[test]
fn token_is_extracted_from_query_string() {
    assert_eq!(extract_token_from_query("token=abc"), Some("abc".to_string()));
    assert_eq!(
        extract_token_from_query("a=1&token=xyz&b=2"),
        Some("xyz".to_string())
    );
    assert_eq!(extract_token_from_query("a=1&b=2"), None);
    assert_eq!(extract_token_from_query(""), None);
    assert_eq!(extract_token_from_query("tokens=abc"), None);
    assert_eq!(extract_token_from_query("token=a=b"), Some("a=b".to_string()));
    assert_eq!(extract_token_from_query("x=1&token="), Some("".to_string()));
}

#[test]
fn fake_game_state_has_five_teams() {
    match fake_game_state("DEMO".to_string()) {
        ServerMessage::GameState { state } => {
            assert_eq!(state.game_code, "DEMO");
            assert_eq!(state.current_question_number, 16);
            assert_eq!(state.teams.len(), 5);
            assert_eq!(state.questions.len(), 1);
            assert_eq!(state.questions[0].answers.len(), 5);
            assert_eq!(state.teams[0].team_name, "The Geniuses");
            assert_eq!(state.teams[0].score.question_points, 3500);
        }
        other => panic!("expected a game state, got {other:?}"),
    }
}

#[test]
fn filter_for_team_returns_placeholder_when_absent() {
    let q = Question {
        timer_duration: 30,
        question_points: 50,
        bonus_increment: 5,
        speed_bonus_enabled: false,
        question_kind: QuestionKind::Standard,
        question_config: QuestionConfig::Standard,
        answers: vec![],
    };
    assert!(!q.has_answers());
    let entry = q.filter_for_team("Ghosts");
    assert_eq!(entry.team_name, "Ghosts");
    assert!(entry.content.is_none());
    assert_eq!(entry.score.question_points, 0);
}

#[test]
fn host_action_outcome_flags_follow_the_action() {
    let mut g = Game::new("ABCD".to_string(), "host-1".to_string());
    g.add_team(
        "T1".to_string(),
        TeamColor { hex_code: "#FFFFFF".to_string(), name: "White".to_string() },
        vec![],
    );

    let out = process_host_action(&mut g, HostAction::StartTimer);
    assert!(out.spawn_timer);
    assert!(!out.cancel_timer);
    assert!(out.broadcast_teams);
    assert!(!out.should_persist);

    // Starting again cancels the previous tick task.
    let out = process_host_action(&mut g, HostAction::StartTimer);
    assert!(out.cancel_timer);
    assert!(out.spawn_timer);

    let out = process_host_action(&mut g, HostAction::NextQuestion);
    assert!(out.should_persist);
    assert!(out.cancel_timer);
    assert!(!out.spawn_timer);
    assert!(matches!(out.reply, ServerMessage::GameState { .. }));

    let out = process_host_action(&mut g, HostAction::PrevQuestion);
    assert!(out.should_persist);

    let out = process_host_action(&mut g, HostAction::PrevQuestion);
    match out.reply {
        ServerMessage::Error { message, .. } => assert_eq!(message, "Already at first question"),
        other => panic!("expected an error, got {other:?}"),
    }
    assert!(!out.should_persist);
}

#[test]
fn score_answer_error_names_the_team() {
    let mut g = Game::new("ABCD".to_string(), "host-1".to_string());
    let out = process_host_action(
        &mut g,
        HostAction::ScoreAnswer {
            question_number: 1,
            team_name: "Nobody".to_string(),
            score: ScoreData::new(),
        },
    );
    match out.reply {
        ServerMessage::Error { message, .. } => {
            assert_eq!(message, "Failed to score answer for team 'Nobody'");
        }
        other => panic!("expected an error, got {other:?}"),
    }

    let out = process_host_action(
        &mut g,
        HostAction::OverrideTeamScore { team_name: "Nobody".to_string(), override_points: 1 },
    );
    match out.reply {
        ServerMessage::Error { message, .. } => {
            assert_eq!(message, "Team 'Nobody' not found");
        }
        other => panic!("expected an error, got {other:?}"),
    }
}

#[test]
fn team_totals_always_equal_answer_sums() {
    // The aggregate invariant, checked concretely after a pile of
    // mutations.
    let mut g = Game::new("ABCD".to_string(), "host-1".to_string());
    for name in ["A", "B", "C"] {
        g.add_team(
            name.to_string(),
            TeamColor { hex_code: "#000000".to_string(), name: "Black".to_string() },
            vec![],
        );
    }
    g.start_timer();
    assert!(g.add_answer("A", "x".to_string()));
    assert!(g.add_answer("B", "x".to_string()));
    g.next_question();
    g.start_timer();
    assert!(g.add_answer("A", "y".to_string()));
    g.pause_timer();
    assert!(g.score_answer(1, "A", ScoreData {
        question_points: 50,
        bonus_points: 10,
        speed_bonus_points: 0,
        override_points: 0,
    }));
    assert!(g.score_answer(2, "A", ScoreData {
        question_points: 25,
        bonus_points: 0,
        speed_bonus_points: 0,
        override_points: 0,
    }));

    for t in &g.teams {
        let mut qp: i64 = 0;
        let mut bp: i64 = 0;
        let mut sp: i64 = 0;
        for q in &g.questions {
            for a in &q.answers {
                if names_equal(&a.team_name, &t.team_name) {
                    qp += a.score.question_points as i64;
                    bp += a.score.bonus_points as i64;
                    sp += a.score.speed_bonus_points as i64;
                }
            }
        }
        assert_eq!(t.score.question_points as i64, qp);
        assert_eq!(t.score.bonus_points as i64, bp);
        assert_eq!(t.score.speed_bonus_points as i64, sp);
    }

    // No question holds two answers by the same team.
    for q in &g.questions {
        for i in 0..q.answers.len() {
            for j in (i + 1)..q.answers.len() {
                assert!(!names_equal(&q.answers[i].team_name, &q.answers[j].team_name));
            }
        }
    }

    // The timer flags stay paired.
    assert_eq!(g.timer_running, g.timer_task_present);
}
