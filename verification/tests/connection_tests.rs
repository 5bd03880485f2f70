//! Joining, rejoining, host reclaim, watchers, routing, and the
//! idle-shutdown decision.

use trivia_core::auth::AuthResult;
use trivia_core::game::Game;
use trivia_core::handler::{
    process_host_action, process_team_action, route_first_message, validate_join,
    FirstMessageRoute, JoinValidation,
};
use trivia_core::messages::{
    ClientMessage, HostAction, ServerMessage, TeamAction, WatcherAction,
};
use trivia_core::registry::{persistence_key, HostEntryOutcome, Registry};
use trivia_core::score::ScoreData;
use trivia_core::types::TeamColor;

fn color() -> TeamColor {
    TeamColor { hex_code: "#EAB308".to_string(), name: "Yellow".to_string() }
}

fn new_game(code: &str, user: &str) -> Game {
    Game::new(code.to_string(), user.to_string())
}

#[test]
fn host_creates_game_and_receives_game_code() {
    let code = trivia_core::codes::generate_code();
    assert_eq!(code.len(), 4);
    assert!(code.chars().all(|c| c.is_ascii_uppercase()));
    let mut reg = Registry::new();
    let g = new_game(&code, "host-1");
    assert!(reg.insert(g));
    assert!(reg.find(&code).is_some());
}

#[test]
fn team_joins_existing_game_and_receives_confirmation() {
    let mut g = new_game("ABCD", "host-1");
    assert_eq!(validate_join(&g, "T1"), JoinValidation::NewTeam);
    g.add_team("T1".to_string(), color(), vec!["Ann".to_string()]);
    let view = g.to_team_game_state("T1").expect("team view");
    assert_eq!(view.team.team_name, "T1");
    assert!(view.team.connected);
    assert_eq!(view.game_code, "ABCD");
}

#[test]
fn team_joins_nonexistent_game_receives_error() {
    let reg = Registry::new();
    assert!(reg.find("ZZZZ").is_none());
}

#[test]
fn multiple_teams_can_join_same_game() {
    let mut g = new_game("ABCD", "host-1");
    g.add_team("T1".to_string(), color(), vec![]);
    g.add_team("T2".to_string(), color(), vec![]);
    g.add_team("T3".to_string(), color(), vec![]);
    assert_eq!(g.teams.len(), 3);
    assert!(g.to_team_game_state("T2").is_some());
}

#[test]
fn join_with_connected_name_is_refused() {
    let mut g = new_game("ABCD", "host-1");
    g.add_team("T1".to_string(), color(), vec![]);
    assert_eq!(validate_join(&g, "T1"), JoinValidation::NameInUse);
    assert_eq!(validate_join(&g, "t1"), JoinValidation::NameInUse);
}

#[test]
fn team_reconnects_and_score_persists() {
    let mut g = new_game("ABCD", "host-1");
    g.add_team("T1".to_string(), color(), vec![]);
    g.start_timer();
    assert!(g.add_answer("T1", "x".to_string()));
    assert!(g.score_answer(
        1,
        "T1",
        ScoreData { question_points: 50, bonus_points: 0, speed_bonus_points: 0, override_points: 0 },
    ));
    assert!(g.set_team_connected("T1", false));
    assert_eq!(validate_join(&g, "t1"), JoinValidation::Rejoin);
    assert!(g.rejoin_team("t1"));
    let idx = g.find_team("T1").unwrap();
    assert!(g.teams[idx].connected);
    assert_eq!(g.teams[idx].score.question_points, 50);
    // The original casing of the name is kept.
    assert_eq!(g.teams[idx].team_name, "T1");
}

#[test]
fn rejoining_team_updates_color_and_members() {
    let mut g = new_game("ABCD", "host-1");
    g.add_team("T1".to_string(), color(), vec!["Ann".to_string()]);
    assert!(g.set_team_connected("T1", false));
    let new_color = TeamColor { hex_code: "#0000FF".to_string(), name: "Blue".to_string() };
    g.add_team("t1".to_string(), new_color, vec!["Bea".to_string()]);
    assert_eq!(g.teams.len(), 1, "a rejoin must not create a second team");
    assert_eq!(g.teams[0].team_color.name, "Blue");
    assert_eq!(g.teams[0].team_members, vec!["Bea".to_string()]);
    assert!(g.teams[0].connected);
}

#[test]
fn host_disconnects_and_reconnects_teams_remain() {
    let mut reg = Registry::new();
    let mut g = new_game("WXYZ", "host-1");
    g.add_team("T1".to_string(), color(), vec![]);
    g.set_team_connected("T1", false);
    g.clear_host_tx();
    assert!(reg.insert(g));

    match reg.host_entry("WXYZ", "host-1") {
        HostEntryOutcome::Reclaimed(k) => {
            let state = reg.games[k].to_game_state();
            assert_eq!(state.teams.len(), 1);
            assert_eq!(state.teams[0].team_name, "T1");
            assert!(!state.teams[0].connected);
            assert!(reg.games[k].host_attached);
        }
        other => panic!("expected a reclaim, got {other:?}"),
    }
}

#[test]
fn host_entry_refuses_active_or_foreign_games() {
    let mut reg = Registry::new();
    assert!(reg.insert(new_game("AAAA", "host-1")));
    assert_eq!(reg.host_entry("AAAA", "host-1"), HostEntryOutcome::ActiveHostExists);
    let mut g = new_game("BBBB", "host-1");
    g.clear_host_tx();
    assert!(reg.insert(g));
    assert_eq!(reg.host_entry("BBBB", "host-2"), HostEntryOutcome::OwnedByOther);
    assert_eq!(reg.host_entry("CCCC", "host-1"), HostEntryOutcome::NotFound);
}

#[test]
fn registry_rejects_duplicate_codes() {
    let mut reg = Registry::new();
    assert!(reg.insert(new_game("AAAA", "host-1")));
    assert!(!reg.insert(new_game("AAAA", "host-2")));
    assert_eq!(reg.games.len(), 1);
}

#[test]
fn watcher_receives_initial_scoreboard_data() {
    let mut g = new_game("ABCD", "host-1");
    g.add_team("T1".to_string(), color(), vec![]);
    let data = g.to_scoreboard_data();
    assert_eq!(data.game_code, "ABCD");
    assert_eq!(data.current_question_number, 1);
    assert!(!data.timer_running);
    assert_eq!(data.teams.len(), 1);
    assert_eq!(data.teams[0].team_name, "T1");
}

#[test]
fn scoreboard_reflects_score_changes_and_overrides() {
    let mut g = new_game("ABCD", "host-1");
    g.add_team("T1".to_string(), color(), vec![]);
    g.start_timer();
    assert!(g.add_answer("T1", "x".to_string()));
    assert!(g.score_answer(
        1,
        "T1",
        ScoreData { question_points: 50, bonus_points: 0, speed_bonus_points: 0, override_points: 0 },
    ));
    assert!(g.override_team_score("T1", 7));
    let data = g.to_scoreboard_data();
    assert_eq!(data.teams[0].score.question_points, 50);
    assert_eq!(data.teams[0].score.override_points, 7);
    assert_eq!(data.teams[0].score.get_score(), 57);
}

#[test]
fn timer_closes_server_when_all_hosts_disconnect() {
    // The supervisor decision: no game with a host attached means the
    // idle-shutdown timer starts.
    let mut reg = Registry::new();
    assert!(reg.insert(new_game("AAAA", "host-1")));
    assert!(reg.any_host_attached());
    let k = reg.find("AAAA").unwrap();
    reg.games[k].clear_host_tx();
    assert!(!reg.any_host_attached());
}

#[test]
fn timer_cancels_when_new_host_connects() {
    let mut reg = Registry::new();
    let mut g = new_game("AAAA", "host-1");
    g.clear_host_tx();
    assert!(reg.insert(g));
    assert!(!reg.any_host_attached());
    assert!(matches!(reg.host_entry("AAAA", "host-1"), HostEntryOutcome::Reclaimed(_)));
    assert!(reg.any_host_attached());
}

#[test]
fn timer_does_not_cancel_when_team_connects() {
    let mut reg = Registry::new();
    let mut g = new_game("AAAA", "host-1");
    g.clear_host_tx();
    assert!(reg.insert(g));
    let k = reg.find("AAAA").unwrap();
    reg.games[k].add_team("T1".to_string(), color(), vec![]);
    assert!(!reg.any_host_attached());
}

#[test]
fn host_sends_unexpected_message_type() {
    // A host connection handing in a team message is routed to an error by
    // the dispatcher; in the in-game loop a `CreateGame` is refused.
    let auth = Some(AuthResult { user_id: "host-1".to_string(), is_host: true });
    let route = route_first_message(
        &auth,
        ClientMessage::Host(HostAction::StartTimer),
    );
    assert!(matches!(route, FirstMessageRoute::HostWrongFirstAction));

    let mut g = new_game("ABCD", "host-1");
    let out = process_host_action(&mut g, HostAction::CreateGame { game_code: None });
    match out.reply {
        ServerMessage::Error { message, .. } => assert_eq!(message, "Game already created"),
        other => panic!("expected an error, got {other:?}"),
    }
}

#[test]
fn team_sends_unexpected_message_type() {
    let route = route_first_message(
        &None,
        ClientMessage::Team(TeamAction::SubmitAnswer {
            team_name: "T1".to_string(),
            answer: "early".to_string(),
        }),
    );
    assert!(matches!(route, FirstMessageRoute::TeamWrongFirstAction));

    let mut g = new_game("ABCD", "host-1");
    g.add_team("T1".to_string(), color(), vec![]);
    let out = process_team_action(
        &mut g,
        TeamAction::ValidateJoin { team_name: "T1".to_string(), game_code: "ABCD".to_string() },
        "T1",
    );
    match out.reply {
        ServerMessage::Error { message, .. } => assert_eq!(message, "Already validated"),
        other => panic!("expected an error, got {other:?}"),
    }
}

#[test]
fn host_without_token_cannot_create_game() {
    let route = route_first_message(
        &None,
        ClientMessage::Host(HostAction::CreateGame { game_code: None }),
    );
    assert!(matches!(route, FirstMessageRoute::HostNotAuthenticated));
}

#[test]
fn user_not_in_hosts_group_cannot_create_game() {
    let auth = Some(AuthResult { user_id: "user-7".to_string(), is_host: false });
    let route = route_first_message(
        &auth,
        ClientMessage::Host(HostAction::CreateGame { game_code: None }),
    );
    assert!(matches!(route, FirstMessageRoute::HostNotAuthorized));
}

#[test]
fn team_can_join_without_token() {
    let route = route_first_message(
        &None,
        ClientMessage::Team(TeamAction::ValidateJoin {
            team_name: "T1".to_string(),
            game_code: "ABCD".to_string(),
        }),
    );
    match route {
        FirstMessageRoute::TeamValidate { game_code, team_name } => {
            assert_eq!(game_code, "ABCD");
            assert_eq!(team_name, "T1");
        }
        other => panic!("expected a team validate route, got {other:?}"),
    }
}

#[test]
fn watcher_route_carries_game_code() {
    let route = route_first_message(
        &None,
        ClientMessage::Watcher(WatcherAction::WatchGame { game_code: "ABCD".to_string() }),
    );
    match route {
        FirstMessageRoute::WatcherWatch { game_code } => assert_eq!(game_code, "ABCD"),
        other => panic!("expected a watcher route, got {other:?}"),
    }
}

#[test]
fn snapshot_round_trip_preserves_game() {
    let mut g = new_game("WXYZ", "host-1");
    g.add_team("T1".to_string(), color(), vec!["Ann".to_string()]);
    g.start_timer();
    assert!(g.add_answer("T1", "x".to_string()));
    assert!(g.score_answer(
        1,
        "T1",
        ScoreData { question_points: 50, bonus_points: 5, speed_bonus_points: 0, override_points: 0 },
    ));
    g.pause_timer();
    let state = g.to_game_state();
    let restored = Game::from_game_state(state, "host-1".to_string()).expect("snapshot is sound");
    assert_eq!(restored.game_code, "WXYZ");
    assert_eq!(restored.current_question_number, g.current_question_number);
    assert!(!restored.timer_running);
    assert!(restored.host_attached);
    assert_eq!(restored.teams.len(), 1);
    assert_eq!(restored.teams[0].score.question_points, 50);
    assert_eq!(restored.questions[0].answers.len(), 1);
}

#[test]
fn snapshot_with_bad_index_is_rejected() {
    let g = new_game("WXYZ", "host-1");
    let mut state = g.to_game_state();
    state.current_question_number = 0;
    assert!(Game::from_game_state(state, "host-1".to_string()).is_none());
    let mut state2 = new_game("WXYZ", "host-1").to_game_state();
    state2.current_question_number = 5;
    assert!(Game::from_game_state(state2, "host-1".to_string()).is_none());
}

#[test]
fn snapshot_with_duplicate_team_names_is_rejected() {
    let mut g = new_game("WXYZ", "host-1");
    g.add_team("T1".to_string(), color(), vec![]);
    let mut state = g.to_game_state();
    let mut dup = state.teams[0].clone();
    dup.team_name = "t1".to_string();
    state.teams.push(dup);
    assert!(Game::from_game_state(state, "host-1".to_string()).is_none());
}

#[test]
fn persistence_key_is_user_slash_code() {
    assert_eq!(persistence_key("host-1", "WXYZ"), "host-1/WXYZ.json");
}
