//! Pure dispatch for the connection handlers: each client message becomes a
//! state change on the game plus a plan saying whom to send what.
//!
//! The surrounding process performs these steps under the registry lock and
//! carries the plan out after releasing it: it sends the reply to the acting
//! client, fans the fresh views out to the host and the teams, notifies
//! watchers, persists, and starts or aborts the tick task as the flags say.

use vstd::prelude::*;
use vstd::string::StringExecFns;

use crate::auth::AuthResult;
use crate::game::{
    frame, propagated, spec_question_from_settings, spec_settings_applied, with_speed, with_totals,
    Game,
};
use crate::messages::{ClientMessage, HostAction, ServerMessage, TeamAction, WatcherAction};
use crate::norm::name_key;
use crate::types::{answer_index, team_index, QuestionView};

verus! {

/// Concatenate three strings.
fn concat3(a: &str, b: &str, c: &str) -> (r: String)
    ensures
        r@ == a@ + b@ + c@,
{
    let mut s = a.to_owned();
    s.append(b);
    s.append(c);
    s
}

/// What a host action produced: the reply to the host, and the fan-out and
/// follow-up work the caller owes.
pub struct HostActionOutcome {
    /// The message to send back to the host.
    pub reply: ServerMessage,
    /// Send every team its own view of the game.
    pub broadcast_teams: bool,
    /// Send watchers a fresh scoreboard.
    pub notify_watchers: bool,
    /// Save the host view through the persistence adapter.
    pub should_persist: bool,
    /// Start a tick task for this game.
    pub spawn_timer: bool,
    /// Abort the previous tick task first.
    pub cancel_timer: bool,
}

/// The reply carries the full host view of `g`.
pub open spec fn reply_is_game_state(reply: ServerMessage, g: Game) -> bool {
    &&& reply matches ServerMessage::GameState { state }
    &&& match reply {
        ServerMessage::GameState { state } => {
            &&& state@.game_code == g.game_code@
            &&& state@.current_question_number == g.current_question_number
            &&& state@.timer_running == g.timer_running
            &&& state@.timer_seconds_remaining == g.timer_seconds_remaining
            &&& state@.teams == g.teams_view()
            &&& state@.questions == g.questions_view()
            &&& state@.game_settings == g.game_settings@
        },
        _ => false,
    }
}

/// The reply is an error with this message and no state.
pub open spec fn reply_is_error(reply: ServerMessage, msg: Seq<char>) -> bool {
    reply matches ServerMessage::Error { message, state } && message@ == msg && state is None
}

/// The flags of a successful mutation: fan out to teams and watchers, with
/// the given persistence and timer-task effects.
pub open spec fn mutated_flags(out: HostActionOutcome, persist: bool, spawn: bool, cancel: bool) -> bool {
    &&& out.broadcast_teams
    &&& out.notify_watchers
    &&& out.should_persist == persist
    &&& out.spawn_timer == spawn
    &&& out.cancel_timer == cancel
}

/// The flags of a rejected action: nothing to fan out or follow up.
pub open spec fn rejected_flags(out: HostActionOutcome) -> bool {
    &&& !out.broadcast_teams
    &&& !out.notify_watchers
    &&& !out.should_persist
    &&& !out.spawn_timer
    &&& !out.cancel_timer
}

/// Apply one host action to the game and compute the fan-out plan. The
/// caller holds the registry lock and has already authenticated the host.
pub fn process_host_action(game: &mut Game, action: HostAction) -> (out: HostActionOutcome)
    requires
        old(game).wf(),
    ensures
        final(game).wf(),
        match action {
            HostAction::CreateGame { .. } => {
                &&& *final(game) == *old(game)
                &&& reply_is_error(out.reply, "Game already created"@)
                &&& rejected_flags(out)
            },
            HostAction::StartTimer => {
                let dur = old(game).questions_view()[old(game).current_question_number - 1].timer_duration;
                let base = match old(game).timer_seconds_remaining {
                    None => dur,
                    Some(n) => if n == 0 {
                        dur
                    } else {
                        n
                    },
                };
                &&& *final(game) == (Game {
                    timer_running: base > 0,
                    timer_task_present: base > 0,
                    timer_seconds_remaining: Some(base),
                    ..*old(game)
                })
                &&& reply_is_game_state(out.reply, *final(game))
                &&& mutated_flags(out, false, base > 0, old(game).timer_task_present)
            },
            HostAction::PauseTimer => {
                &&& *final(game) == (Game {
                    timer_running: false,
                    timer_task_present: false,
                    ..*old(game)
                })
                &&& reply_is_game_state(out.reply, *final(game))
                &&& mutated_flags(out, false, false, old(game).timer_task_present)
            },
            HostAction::ResetTimer => {
                &&& *final(game) == (Game {
                    timer_running: false,
                    timer_task_present: false,
                    timer_seconds_remaining: Some(
                        old(game).questions_view()[old(game).current_question_number - 1].timer_duration,
                    ),
                    ..*old(game)
                })
                &&& reply_is_game_state(out.reply, *final(game))
                &&& mutated_flags(out, false, false, old(game).timer_task_present)
            },
            HostAction::NextQuestion => {
                &&& !final(game).timer_running
                &&& !final(game).timer_task_present
                &&& final(game).current_question_number == old(game).current_question_number + 1
                &&& if old(game).current_question_number == old(game).questions_view().len() {
                    final(game).questions_view() == old(game).questions_view().push(
                        spec_question_from_settings(old(game).game_settings@),
                    )
                } else {
                    final(game).questions == old(game).questions
                }
                &&& final(game).timer_seconds_remaining == Some(
                    final(game).questions_view()[final(game).current_question_number - 1].timer_duration,
                )
                &&& final(game).teams == old(game).teams
                &&& final(game).game_settings == old(game).game_settings
                &&& reply_is_game_state(out.reply, *final(game))
                &&& mutated_flags(out, true, false, old(game).timer_task_present)
            },
            HostAction::PrevQuestion => {
                if old(game).current_question_number <= 1 {
                    &&& *final(game) == *old(game)
                    &&& reply_is_error(out.reply, "Already at first question"@)
                    &&& rejected_flags(out)
                } else {
                    &&& !final(game).timer_running
                    &&& !final(game).timer_task_present
                    &&& final(game).current_question_number == old(game).current_question_number
                        - 1
                    &&& final(game).questions == old(game).questions
                    &&& final(game).teams == old(game).teams
                    &&& final(game).timer_seconds_remaining == Some(
                        final(game).questions_view()[final(game).current_question_number - 1].timer_duration,
                    )
                    &&& reply_is_game_state(out.reply, *final(game))
                    &&& mutated_flags(out, true, false, old(game).timer_task_present)
                }
            },
            HostAction::ScoreAnswer { question_number, team_name, score } => {
                let valid = 1 <= question_number <= old(game).questions_view().len();
                let k = if valid {
                    answer_index(
                        old(game).questions_view()[question_number - 1].answers,
                        name_key(team_name@),
                    )
                } else {
                    -1
                };
                if valid && k >= 0 {
                    &&& final(game).questions_view() == old(game).questions_view().update(
                        question_number - 1,
                        with_speed(
                            propagated(
                                old(game).questions_view()[question_number - 1],
                                k,
                                score.question_points,
                                score.bonus_points,
                            ),
                            old(game).game_settings@,
                        ),
                    )
                    &&& final(game).teams_view() == with_totals(
                        old(game).teams_view(),
                        final(game).questions_view(),
                    )
                    &&& frame(old(game), final(game))
                    &&& reply_is_game_state(out.reply, *final(game))
                    &&& mutated_flags(out, false, false, false)
                } else {
                    &&& *final(game) == *old(game)
                    &&& reply_is_error(
                        out.reply,
                        "Failed to score answer for team '"@ + team_name@ + "'"@,
                    )
                    &&& rejected_flags(out)
                }
            },
            HostAction::OverrideTeamScore { team_name, override_points } => {
                let k = team_index(old(game).teams_view(), name_key(team_name@));
                if k >= 0 {
                    &&& final(game).teams_view() == old(game).teams_view().update(
                        k,
                        crate::types::TeamDataView {
                            score: crate::score::ScoreData {
                                override_points,
                                ..old(game).teams_view()[k].score
                            },
                            ..old(game).teams_view()[k]
                        },
                    )
                    &&& crate::game::equal_but_teams(old(game), final(game))
                    &&& reply_is_game_state(out.reply, *final(game))
                    &&& mutated_flags(out, false, false, false)
                } else {
                    &&& *final(game) == *old(game)
                    &&& reply_is_error(out.reply, "Team '"@ + team_name@ + "' not found"@)
                    &&& rejected_flags(out)
                }
            },
            HostAction::UpdateGameSettings { settings } => {
                &&& final(game).game_settings == settings
                &&& final(game).questions_view().len() == old(game).questions_view().len()
                &&& forall|i: int|
                    0 <= i < old(game).questions_view().len() ==> final(game).questions_view()[i]
                        == with_speed(
                        spec_settings_applied(
                            #[trigger] old(game).questions_view()[i],
                            settings@,
                        ),
                        settings@,
                    )
                &&& final(game).teams_view() == with_totals(
                    old(game).teams_view(),
                    final(game).questions_view(),
                )
                &&& reply_is_game_state(out.reply, *final(game))
                &&& mutated_flags(out, false, false, false)
            },
            HostAction::UpdateQuestionSettings {
                question_number,
                timer_duration,
                question_points,
                bonus_increment,
                question_type,
                speed_bonus_enabled,
            } => {
                let valid = 1 <= question_number <= old(game).questions_view().len();
                let unanswered = valid && old(game).questions_view()[question_number - 1].answers.len() == 0;
                if !valid {
                    &&& *final(game) == *old(game)
                    &&& reply_is_error(out.reply, "Question does not exist"@)
                    &&& rejected_flags(out)
                } else if !unanswered {
                    &&& *final(game) == *old(game)
                    &&& reply_is_error(
                        out.reply,
                        "Cannot update settings for a question that has answers"@,
                    )
                    &&& rejected_flags(out)
                } else {
                    let oldq = old(game).questions_view()[question_number - 1];
                    &&& final(game).questions_view() == old(game).questions_view().update(
                        question_number - 1,
                        QuestionView {
                            timer_duration,
                            question_points,
                            bonus_increment,
                            speed_bonus_enabled,
                            question_kind: question_type,
                            question_config: if question_type == oldq.question_kind {
                                oldq.question_config
                            } else {
                                crate::types::spec_default_config(
                                    question_type,
                                    old(game).game_settings@.default_mc_config,
                                )
                            },
                            answers: oldq.answers,
                        },
                    )
                    &&& final(game).teams == old(game).teams
                    &&& reply_is_game_state(out.reply, *final(game))
                    &&& mutated_flags(out, false, false, false)
                }
            },
            HostAction::UpdateTypeSpecificSettings { question_number, question_config } => {
                let valid = 1 <= question_number <= old(game).questions_view().len();
                let unanswered = valid && old(game).questions_view()[question_number - 1].answers.len() == 0;
                let kind_matches = valid && crate::types::config_kind(question_config@) == old(
                    game,
                ).questions_view()[question_number - 1].question_kind;
                if !valid {
                    &&& *final(game) == *old(game)
                    &&& reply_is_error(out.reply, "Question does not exist"@)
                    &&& rejected_flags(out)
                } else if !unanswered {
                    &&& *final(game) == *old(game)
                    &&& reply_is_error(
                        out.reply,
                        "Cannot update settings for a question that has answers"@,
                    )
                    &&& rejected_flags(out)
                } else if !kind_matches {
                    &&& *final(game) == *old(game)
                    &&& reply_is_error(
                        out.reply,
                        "Question config does not match the question type"@,
                    )
                    &&& rejected_flags(out)
                } else {
                    &&& final(game).questions_view() == old(game).questions_view().update(
                        question_number - 1,
                        QuestionView {
                            question_config: question_config@,
                            ..old(game).questions_view()[question_number - 1]
                        },
                    )
                    &&& final(game).teams == old(game).teams
                    &&& frame(old(game), final(game))
                    &&& reply_is_game_state(out.reply, *final(game))
                    &&& mutated_flags(out, false, false, false)
                }
            },
        },
{
    match action {
        HostAction::CreateGame { .. } => HostActionOutcome {
            reply: ServerMessage::error("Game already created"),
            broadcast_teams: false,
            notify_watchers: false,
            should_persist: false,
            spawn_timer: false,
            cancel_timer: false,
        },
        HostAction::StartTimer => {
            let cancel = game.timer_task_present;
            let spawn = game.start_timer();
            HostActionOutcome {
                reply: ServerMessage::GameState { state: game.to_game_state() },
                broadcast_teams: true,
                notify_watchers: true,
                should_persist: false,
                spawn_timer: spawn,
                cancel_timer: cancel,
            }
        },
        HostAction::PauseTimer => {
            let cancel = game.timer_task_present;
            game.pause_timer();
            HostActionOutcome {
                reply: ServerMessage::GameState { state: game.to_game_state() },
                broadcast_teams: true,
                notify_watchers: true,
                should_persist: false,
                spawn_timer: false,
                cancel_timer: cancel,
            }
        },
        HostAction::ResetTimer => {
            let cancel = game.timer_task_present;
            game.reset_timer();
            HostActionOutcome {
                reply: ServerMessage::GameState { state: game.to_game_state() },
                broadcast_teams: true,
                notify_watchers: true,
                should_persist: false,
                spawn_timer: false,
                cancel_timer: cancel,
            }
        },
        HostAction::NextQuestion => {
            let cancel = game.timer_task_present;
            game.next_question();
            HostActionOutcome {
                reply: ServerMessage::GameState { state: game.to_game_state() },
                broadcast_teams: true,
                notify_watchers: true,
                should_persist: true,
                spawn_timer: false,
                cancel_timer: cancel,
            }
        },
        HostAction::PrevQuestion => {
            let cancel = game.timer_task_present;
            match game.prev_question() {
                Ok(()) => HostActionOutcome {
                    reply: ServerMessage::GameState { state: game.to_game_state() },
                    broadcast_teams: true,
                    notify_watchers: true,
                    should_persist: true,
                    spawn_timer: false,
                    cancel_timer: cancel,
                },
                Err(msg) => HostActionOutcome {
                    reply: ServerMessage::error(msg),
                    broadcast_teams: false,
                    notify_watchers: false,
                    should_persist: false,
                    spawn_timer: false,
                    cancel_timer: false,
                },
            }
        },
        HostAction::ScoreAnswer { question_number, team_name, score } => {
            if game.score_answer(question_number, team_name.as_str(), score) {
                HostActionOutcome {
                    reply: ServerMessage::GameState { state: game.to_game_state() },
                    broadcast_teams: true,
                    notify_watchers: true,
                    should_persist: false,
                    spawn_timer: false,
                    cancel_timer: false,
                }
            } else {
                let message = concat3(
                    "Failed to score answer for team '",
                    team_name.as_str(),
                    "'",
                );
                HostActionOutcome {
                    reply: ServerMessage::Error { message, state: None },
                    broadcast_teams: false,
                    notify_watchers: false,
                    should_persist: false,
                    spawn_timer: false,
                    cancel_timer: false,
                }
            }
        },
        HostAction::OverrideTeamScore { team_name, override_points } => {
            if game.override_team_score(team_name.as_str(), override_points) {
                HostActionOutcome {
                    reply: ServerMessage::GameState { state: game.to_game_state() },
                    broadcast_teams: true,
                    notify_watchers: true,
                    should_persist: false,
                    spawn_timer: false,
                    cancel_timer: false,
                }
            } else {
                let message = concat3("Team '", team_name.as_str(), "' not found");
                HostActionOutcome {
                    reply: ServerMessage::Error { message, state: None },
                    broadcast_teams: false,
                    notify_watchers: false,
                    should_persist: false,
                    spawn_timer: false,
                    cancel_timer: false,
                }
            }
        },
        HostAction::UpdateGameSettings { settings } => {
            game.update_game_settings(settings);
            HostActionOutcome {
                reply: ServerMessage::GameState { state: game.to_game_state() },
                broadcast_teams: true,
                notify_watchers: true,
                should_persist: false,
                spawn_timer: false,
                cancel_timer: false,
            }
        },
        HostAction::UpdateQuestionSettings {
            question_number,
            timer_duration,
            question_points,
            bonus_increment,
            question_type,
            speed_bonus_enabled,
        } => {
            match game.update_question_settings(
                question_number,
                timer_duration,
                question_points,
                bonus_increment,
                question_type,
                speed_bonus_enabled,
            ) {
                Ok(()) => HostActionOutcome {
                    reply: ServerMessage::GameState { state: game.to_game_state() },
                    broadcast_teams: true,
                    notify_watchers: true,
                    should_persist: false,
                    spawn_timer: false,
                    cancel_timer: false,
                },
                Err(msg) => HostActionOutcome {
                    reply: ServerMessage::error(msg),
                    broadcast_teams: false,
                    notify_watchers: false,
                    should_persist: false,
                    spawn_timer: false,
                    cancel_timer: false,
                },
            }
        },
        HostAction::UpdateTypeSpecificSettings { question_number, question_config } => {
            match game.update_type_specific_settings(question_number, question_config) {
                Ok(()) => HostActionOutcome {
                    reply: ServerMessage::GameState { state: game.to_game_state() },
                    broadcast_teams: true,
                    notify_watchers: true,
                    should_persist: false,
                    spawn_timer: false,
                    cancel_timer: false,
                },
                Err(msg) => HostActionOutcome {
                    reply: ServerMessage::error(msg),
                    broadcast_teams: false,
                    notify_watchers: false,
                    should_persist: false,
                    spawn_timer: false,
                    cancel_timer: false,
                },
            }
        },
    }
}

/// What a team action produced: the reply to the team, and the fan-out the
/// caller owes.
pub struct TeamActionOutcome {
    /// The message to send back to the acting team.
    pub reply: ServerMessage,
    /// Send the host its view and every team its own view.
    pub broadcast_all: bool,
    /// Send watchers a fresh scoreboard.
    pub notify_watchers: bool,
}

/// Apply one in-loop team action to the game and compute the fan-out plan.
/// The caller holds the registry lock; `team_name` is the name the
/// connection joined under.
pub fn process_team_action(game: &mut Game, action: TeamAction, team_name: &str) -> (out:
    TeamActionOutcome)
    requires
        old(game).wf(),
    ensures
        final(game).wf(),
        match action {
            TeamAction::ValidateJoin { .. } => {
                &&& *final(game) == *old(game)
                &&& reply_is_error(out.reply, "Already validated"@)
                &&& !out.broadcast_all && !out.notify_watchers
            },
            TeamAction::JoinGame { .. } => {
                &&& *final(game) == *old(game)
                &&& reply_is_error(out.reply, "Game already joined"@)
                &&& !out.broadcast_all && !out.notify_watchers
            },
            TeamAction::SubmitAnswer { answer, .. } => {
                if !old(game).timer_running {
                    &&& *final(game) == *old(game)
                    &&& reply_is_error(out.reply, "Submissions are closed"@)
                    &&& !out.broadcast_all && !out.notify_watchers
                } else {
                    let qi = old(game).current_question_number - 1;
                    let oldq = old(game).questions_view()[qi as int];
                    let accepted = answer_index(oldq.answers, name_key(team_name@)) < 0
                        && oldq.question_kind != crate::types::QuestionKind::MultiAnswer;
                    if !accepted {
                        &&& *final(game) == *old(game)
                        &&& reply_is_error(out.reply, "Answer already submitted"@)
                        &&& !out.broadcast_all && !out.notify_watchers
                    } else {
                        let content = crate::game::spec_new_content(
                            oldq.question_kind,
                            answer@,
                        );
                        let m = crate::game::auto_match_index(
                            oldq.answers,
                            crate::types::content_key(content),
                            oldq.question_points as int,
                        );
                        let inherited = if m >= 0 {
                            crate::score::ScoreData {
                                question_points: oldq.answers[m].score.question_points,
                                bonus_points: oldq.answers[m].score.bonus_points,
                                speed_bonus_points: 0,
                                override_points: 0,
                            }
                        } else {
                            crate::score::ScoreData {
                                question_points: 0,
                                bonus_points: 0,
                                speed_bonus_points: 0,
                                override_points: 0,
                            }
                        };
                        let appended = QuestionView {
                            answers: oldq.answers.push(
                                crate::types::AnswerView {
                                    team_name: team_name@,
                                    score: inherited,
                                    content: Some(content),
                                    question_kind: oldq.question_kind,
                                    question_config: oldq.question_config,
                                },
                            ),
                            ..oldq
                        };
                        &&& final(game).questions_view() == old(game).questions_view().update(
                            qi as int,
                            with_speed(appended, old(game).game_settings@),
                        )
                        &&& final(game).teams_view() == with_totals(
                            old(game).teams_view(),
                            final(game).questions_view(),
                        )
                        &&& frame(old(game), final(game))
                        &&& out.broadcast_all && out.notify_watchers
                        &&& ({
                            let fg = *final(game);
                            let k = team_index(fg.teams_view(), name_key(team_name@));
                            if k >= 0 {
                                &&& out.reply matches ServerMessage::TeamGameState { state }
                                &&& match out.reply {
                                    ServerMessage::TeamGameState { state } => {
                                        &&& state@.team == fg.teams_view()[k]
                                        &&& state@.game_code == fg.game_code@
                                        &&& state@.current_question_number
                                            == fg.current_question_number
                                        &&& state@.timer_running == fg.timer_running
                                        &&& state@.timer_seconds_remaining
                                            == fg.timer_seconds_remaining
                                        &&& state@.questions.len() == fg.questions_view().len()
                                        &&& forall|i: int|
                                            0 <= i < fg.questions_view().len()
                                                ==> state@.questions[i]
                                                == crate::types::spec_filter_for_team(
                                                #[trigger] fg.questions_view()[i],
                                                team_name@,
                                            )
                                    },
                                    _ => false,
                                }
                            } else {
                                reply_is_error(out.reply, "Failed to get team state"@)
                            }
                        })
                    }
                }
            },
        },
{
    match action {
        TeamAction::ValidateJoin { .. } => TeamActionOutcome {
            reply: ServerMessage::error("Already validated"),
            broadcast_all: false,
            notify_watchers: false,
        },
        TeamAction::JoinGame { .. } => TeamActionOutcome {
            reply: ServerMessage::error("Game already joined"),
            broadcast_all: false,
            notify_watchers: false,
        },
        TeamAction::SubmitAnswer { answer, .. } => {
            // Submissions are open exactly while the timer runs; this is the
            // sole gate.
            if !game.timer_running {
                return TeamActionOutcome {
                    reply: ServerMessage::error("Submissions are closed"),
                    broadcast_all: false,
                    notify_watchers: false,
                };
            }
            if !game.add_answer(team_name, answer) {
                return TeamActionOutcome {
                    reply: ServerMessage::error("Answer already submitted"),
                    broadcast_all: false,
                    notify_watchers: false,
                };
            }
            let reply = match game.to_team_game_state(team_name) {
                Some(state) => ServerMessage::TeamGameState { state },
                None => ServerMessage::error("Failed to get team state"),
            };
            TeamActionOutcome { reply, broadcast_all: true, notify_watchers: true }
        },
    }
}

/// How a team's `ValidateJoin` request resolves against a game.
#[derive(Debug, Clone, Copy, PartialEq, Eq, Structural)]
pub enum JoinValidation {
    /// A connected team already uses this name; the join is refused.
    NameInUse,
    /// A disconnected team of this name exists; the connection may rejoin
    /// as that team at once.
    Rejoin,
    /// The name is free; the connection proceeds to `JoinGame`.
    NewTeam,
}

/// Decide a team's `ValidateJoin` request: whether the name is free, held
/// by a live connection, or held by a disconnected team that may be rejoined.
/// The caller has already resolved the game code.
pub fn validate_join(game: &Game, team_name: &str) -> (r: JoinValidation)
    requires
        game.wf(),
    ensures
        ({
            let k = team_index(game.teams_view(), name_key(team_name@));
            if k < 0 {
                r == JoinValidation::NewTeam
            } else if game.teams_view()[k].connected {
                r == JoinValidation::NameInUse
            } else {
                r == JoinValidation::Rejoin
            }
        }),
{
    match game.find_team(team_name) {
        None => JoinValidation::NewTeam,
        Some(k) => {
            proof {
                crate::types::lemma_team_index_props(game.teams_view(), name_key(team_name@));
            }
            if game.teams[k].connected {
                JoinValidation::NameInUse
            } else {
                JoinValidation::Rejoin
            }
        },
    }
}

/// Where a connection's first message sends it.
#[derive(Debug)]
pub enum FirstMessageRoute {
    /// An authorized host asked to create or reclaim a game.
    HostCreate { game_code: Option<String> },
    /// A host action arrived without authentication.
    HostNotAuthenticated,
    /// A host action arrived from a user who may not host.
    HostNotAuthorized,
    /// A host sent something other than `CreateGame` first.
    HostWrongFirstAction,
    /// A team asked to validate a join.
    TeamValidate { game_code: String, team_name: String },
    /// A team sent something other than `ValidateJoin` first.
    TeamWrongFirstAction,
    /// A watcher asked to observe a game.
    WatcherWatch { game_code: String },
}

/// Route a connection's first message: hosts must be authenticated and
/// authorized and must open with `CreateGame`; teams must open with
/// `ValidateJoin`; watchers must open with `WatchGame` and need no token.
pub fn route_first_message(auth: &Option<AuthResult>, msg: ClientMessage) -> (r: FirstMessageRoute)
    ensures
        match msg {
            ClientMessage::Host(action) => match auth {
                None => r is HostNotAuthenticated,
                Some(a) => if !a.is_host {
                    r is HostNotAuthorized
                } else {
                    match action {
                        HostAction::CreateGame { game_code } => r matches
                            FirstMessageRoute::HostCreate { game_code: gc } && gc == game_code,
                        _ => r is HostWrongFirstAction,
                    }
                },
            },
            ClientMessage::Team(action) => match action {
                TeamAction::ValidateJoin { team_name, game_code } => r matches
                    FirstMessageRoute::TeamValidate { game_code: gc, team_name: tn } && gc
                    == game_code && tn == team_name,
                _ => r is TeamWrongFirstAction,
            },
            ClientMessage::Watcher(action) => match action {
                WatcherAction::WatchGame { game_code } => r matches
                    FirstMessageRoute::WatcherWatch { game_code: gc } && gc == game_code,
            },
        },
{
    match msg {
        ClientMessage::Host(action) => match auth {
            None => FirstMessageRoute::HostNotAuthenticated,
            Some(a) => {
                if !a.is_host {
                    FirstMessageRoute::HostNotAuthorized
                } else {
                    match action {
                        HostAction::CreateGame { game_code } => FirstMessageRoute::HostCreate {
                            game_code,
                        },
                        _ => FirstMessageRoute::HostWrongFirstAction,
                    }
                }
            },
        },
        ClientMessage::Team(action) => match action {
            TeamAction::ValidateJoin { team_name, game_code } => FirstMessageRoute::TeamValidate {
                game_code,
                team_name,
            },
            _ => FirstMessageRoute::TeamWrongFirstAction,
        },
        ClientMessage::Watcher(action) => match action {
            WatcherAction::WatchGame { game_code } => FirstMessageRoute::WatcherWatch { game_code },
        },
    }
}

} // verus!
