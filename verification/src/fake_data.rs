//! A canned host view with five teams and a scored question, for exercising
//! a host client against realistic data.

use vstd::prelude::*;

use crate::messages::{GameState, ServerMessage};
use crate::score::ScoreData;
use crate::types::{
    AnswerContent, GameSettings, McConfig, Question, QuestionConfig, QuestionKind, TeamColor,
    TeamData, TeamQuestionResult,
};

verus! {

/// One demo answer on the current question.
fn demo_answer(team_name: &str, question_points: i32, answer_text: &str) -> (r: TeamQuestionResult)
    ensures
        r@.team_name == team_name@,
        r@.score == (ScoreData {
            question_points,
            bonus_points: 0,
            speed_bonus_points: 0,
            override_points: 0,
        }),
        r@.question_kind == QuestionKind::Standard,
    {
    TeamQuestionResult {
        team_name: team_name.to_owned(),
        score: ScoreData { question_points, bonus_points: 0, speed_bonus_points: 0, override_points: 0 },
        content: Some(AnswerContent::Standard { answer_text: answer_text.to_owned() }),
        question_kind: QuestionKind::Standard,
        question_config: QuestionConfig::Standard,
    }
}

/// One demo team with the given totals.
fn demo_team(
    team_name: &str,
    members: Vec<String>,
    hex_code: &str,
    color_name: &str,
    question_points: i32,
    bonus_points: i32,
    connected: bool,
) -> (r: TeamData)
    ensures
        r@.team_name == team_name@,
        r@.score == (ScoreData {
            question_points,
            bonus_points,
            speed_bonus_points: 0,
            override_points: 0,
        }),
        r@.connected == connected,
    {
    TeamData {
        team_name: team_name.to_owned(),
        team_members: members,
        team_color: TeamColor { hex_code: hex_code.to_owned(), name: color_name.to_owned() },
        score: ScoreData { question_points, bonus_points, speed_bonus_points: 0, override_points: 0 },
        connected,
    }
}

/// A fake host view for trying out a host client: five teams with varied
/// totals and a single standard question holding their answers in
/// submission order.
pub fn fake_game_state(game_code: String) -> (r: ServerMessage)
    ensures
        r matches ServerMessage::GameState { state } && ({
            &&& state@.game_code == game_code@
            &&& state@.current_question_number == 16
            &&& !state@.timer_running
            &&& state@.timer_seconds_remaining == Some(30u32)
            &&& state@.teams.len() == 5
            &&& state@.questions.len() == 1
            &&& state@.questions[0].answers.len() == 5
            &&& state@.teams[0].team_name == "The Geniuses"@
            &&& state@.teams[0].score == (ScoreData {
                question_points: 3500,
                bonus_points: 20,
                speed_bonus_points: 0,
                override_points: 0,
            })
        }),
{
    let game_settings = GameSettings {
        default_timer_duration: 30,
        default_question_points: 50,
        default_bonus_increment: 5,
        default_question_type: QuestionKind::Standard,
        default_mc_config: McConfig::new(),
        speed_bonus_enabled: false,
        speed_bonus_num_teams: 2,
        speed_bonus_first_place_points: 10,
    };

    // Answers ordered by submission time, first to last.
    let mut answers: Vec<TeamQuestionResult> = Vec::new();
    answers.push(demo_answer("The Geniuses", 50, "Cinnamon brown sugar"));
    answers.push(demo_answer("Smink", 0, "Strawberry"));
    answers.push(demo_answer("Team Treetops", 50, "P"));
    answers.push(
        demo_answer(
            "We Really Want To Win",
            50,
            "Umm I'm really not sure. Please just give us points! We deserve so many points.",
        ),
    );
    answers.push(demo_answer("The Former Friends", 50, "Cinnamon brown sugar"));

    let current_question = Question {
        timer_duration: 30,
        question_points: 50,
        bonus_increment: 5,
        speed_bonus_enabled: false,
        question_kind: QuestionKind::Standard,
        question_config: QuestionConfig::Standard,
        answers,
    };

    let mut members1: Vec<String> = Vec::new();
    members1.push(("Bingo").to_owned());
    members1.push(("Bango").to_owned());
    members1.push(("Bongo").to_owned());
    let mut members2: Vec<String> = Vec::new();
    members2.push(("Smink").to_owned());
    members2.push(("Smonk").to_owned());
    members2.push(("Smunk").to_owned());
    members2.push(("Smank").to_owned());
    let mut members3: Vec<String> = Vec::new();
    members3.push(("Bob").to_owned());
    members3.push(("Bilbo").to_owned());
    members3.push(("Brigid").to_owned());
    members3.push(("Briella").to_owned());
    let mut members4: Vec<String> = Vec::new();
    members4.push(("Sam").to_owned());
    members4.push(("Diane").to_owned());
    let mut members5: Vec<String> = Vec::new();
    members5.push(("Jared").to_owned());
    members5.push(("Spencer").to_owned());
    members5.push(("Jacob").to_owned());
    members5.push(("Blake").to_owned());
    members5.push(("Austin").to_owned());
    members5.push(("Riley").to_owned());
    members5.push(("Jason").to_owned());

    let mut teams: Vec<TeamData> = Vec::new();
    teams.push(demo_team("The Geniuses", members1, "#DC2626", "Red", 3500, 20, true));
    teams.push(demo_team("Smink", members2, "#16A34A", "Green", 1850, 50, true));
    teams.push(demo_team("Team Treetops", members3, "#65A30D", "Lime", 300, 50, true));
    teams.push(demo_team("We Really Want To Win", members4, "#EAB308", "Yellow", 200, 0, true));
    teams.push(demo_team("The Former Friends", members5, "#F97316", "Orange", 300, 50, false));

    let mut questions: Vec<Question> = Vec::new();
    questions.push(current_question);

    ServerMessage::GameState {
        state: GameState {
            game_code,
            current_question_number: 16,
            timer_running: false,
            timer_seconds_remaining: Some(30),
            teams,
            questions,
            game_settings,
        },
    }
}

} // verus!
