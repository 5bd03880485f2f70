//! The messages exchanged with clients, and the state projections they
//! carry.
//!
//! These are the in-memory shapes only; the JSON encoding lives outside the
//! library and maps onto these types field by field.

use vstd::prelude::*;

use crate::score::ScoreData;
use crate::types::{
    GameSettings, Question, QuestionConfig, QuestionKind, QuestionView, SettingsView, TeamData,
    TeamDataView, TeamQuestionResult,
};

verus! {

/// The full state of a game as the host sees it.
#[derive(Debug)]
pub struct GameState {
    pub game_code: String,
    pub current_question_number: usize,
    pub timer_running: bool,
    pub timer_seconds_remaining: Option<u32>,
    pub teams: Vec<TeamData>,
    pub questions: Vec<Question>,
    pub game_settings: GameSettings,
}

/// Mathematical view of a host-side game state.
#[verifier::ext_equal]
pub ghost struct GameStateView {
    pub game_code: Seq<char>,
    pub current_question_number: usize,
    pub timer_running: bool,
    pub timer_seconds_remaining: Option<u32>,
    pub teams: Seq<TeamDataView>,
    pub questions: Seq<QuestionView>,
    pub game_settings: SettingsView,
}

impl View for GameState {
    type V = GameStateView;

    open spec fn view(&self) -> GameStateView {
        GameStateView {
            game_code: self.game_code@,
            current_question_number: self.current_question_number,
            timer_running: self.timer_running,
            timer_seconds_remaining: self.timer_seconds_remaining,
            teams: self.teams.deep_view(),
            questions: self.questions.deep_view(),
            game_settings: self.game_settings@,
        }
    }
}

/// The state of a game as one team sees it: the shared header, the team's
/// own record, and each question reduced to that team's answer.
#[derive(Debug)]
pub struct TeamGameState {
    pub game_code: String,
    pub current_question_number: usize,
    pub timer_running: bool,
    pub timer_seconds_remaining: Option<u32>,
    pub team: TeamData,
    pub questions: Vec<TeamQuestionResult>,
}

/// Mathematical view of a team-side game state.
#[verifier::ext_equal]
pub ghost struct TeamGameStateView {
    pub game_code: Seq<char>,
    pub current_question_number: usize,
    pub timer_running: bool,
    pub timer_seconds_remaining: Option<u32>,
    pub team: TeamDataView,
    pub questions: Seq<crate::types::AnswerView>,
}

impl View for TeamGameState {
    type V = TeamGameStateView;

    open spec fn view(&self) -> TeamGameStateView {
        TeamGameStateView {
            game_code: self.game_code@,
            current_question_number: self.current_question_number,
            timer_running: self.timer_running,
            timer_seconds_remaining: self.timer_seconds_remaining,
            team: self.team@,
            questions: self.questions.deep_view(),
        }
    }
}

/// The scoreboard projection watchers see: teams and totals, no answers.
#[derive(Debug)]
pub struct ScoreboardData {
    pub game_code: String,
    pub current_question_number: usize,
    pub timer_running: bool,
    pub timer_seconds_remaining: Option<u32>,
    pub teams: Vec<TeamData>,
}

/// Mathematical view of a scoreboard.
#[verifier::ext_equal]
pub ghost struct ScoreboardDataView {
    pub game_code: Seq<char>,
    pub current_question_number: usize,
    pub timer_running: bool,
    pub timer_seconds_remaining: Option<u32>,
    pub teams: Seq<TeamDataView>,
}

impl View for ScoreboardData {
    type V = ScoreboardDataView;

    open spec fn view(&self) -> ScoreboardDataView {
        ScoreboardDataView {
            game_code: self.game_code@,
            current_question_number: self.current_question_number,
            timer_running: self.timer_running,
            timer_seconds_remaining: self.timer_seconds_remaining,
            teams: self.teams.deep_view(),
        }
    }
}

/// A command from the host.
#[derive(Debug)]
pub enum HostAction {
    CreateGame { game_code: Option<String> },
    StartTimer,
    PauseTimer,
    ResetTimer,
    NextQuestion,
    PrevQuestion,
    ScoreAnswer { question_number: usize, team_name: String, score: ScoreData },
    OverrideTeamScore { team_name: String, override_points: i32 },
    UpdateGameSettings { settings: GameSettings },
    UpdateQuestionSettings {
        question_number: usize,
        timer_duration: u32,
        question_points: u32,
        bonus_increment: u32,
        question_type: QuestionKind,
        speed_bonus_enabled: bool,
    },
    UpdateTypeSpecificSettings { question_number: usize, question_config: QuestionConfig },
}

/// A command from a team.
#[derive(Debug)]
pub enum TeamAction {
    ValidateJoin { team_name: String, game_code: String },
    JoinGame {
        team_name: String,
        game_code: String,
        color_hex: String,
        color_name: String,
        team_members: Vec<String>,
    },
    SubmitAnswer { team_name: String, answer: String },
}

/// A command from a watcher.
#[derive(Debug)]
pub enum WatcherAction {
    WatchGame { game_code: String },
}

/// Any first- or in-loop message from a client, tagged by role.
#[derive(Debug)]
pub enum ClientMessage {
    Host(HostAction),
    Team(TeamAction),
    Watcher(WatcherAction),
}

/// A message from the server to one client.
#[derive(Debug)]
#[allow(inconsistent_fields)]
pub enum ServerMessage {
    GameState { state: GameState },
    TeamGameState { state: TeamGameState },
    ScoreboardData { data: ScoreboardData },
    JoinValidated,
    TimerTick { seconds_remaining: u32 },
    Error { message: String, state: Option<GameState> },
}

impl ServerMessage {
    /// An error reply carrying no state.
    pub fn error(message: &str) -> (r: ServerMessage)
        ensures
            r matches ServerMessage::Error { message: m, state } && m@ == message@ && state
                is None,
    {
        ServerMessage::Error { message: message.to_owned(), state: None }
    }
}

} // verus!
