//! The data model of a game: question kinds and configurations, submitted
//! answers, teams, and game-wide settings.
//!
//! Each type carries a mathematical view (`@`) over which every contract in
//! the crate is stated; `Clone` is implemented by hand so that a clone is
//! known to preserve the view.

use vstd::prelude::*;

use crate::norm::{answer_key, name_key};
use crate::score::ScoreData;

verus! {

/// The kind of a question, which decides how answers are collected and
/// compared.
#[derive(Debug, Clone, Copy, PartialEq, Eq, Structural)]
pub enum QuestionKind {
    Standard,
    MultiAnswer,
    MultipleChoice,
}

/// Settings specific to a multiple-choice question: the choices offered.
#[derive(Debug)]
pub struct McConfig {
    pub choices: Vec<String>,
}

impl View for McConfig {
    type V = Seq<Seq<char>>;

    open spec fn view(&self) -> Seq<Seq<char>> {
        self.choices.deep_view()
    }
}

impl DeepView for McConfig {
    type V = Seq<Seq<char>>;

    open spec fn deep_view(&self) -> Seq<Seq<char>> {
        self.view()
    }
}

impl Clone for McConfig {
    fn clone(&self) -> (r: Self)
        ensures
            r@ == self@,
    {
        let choices = self.choices.clone();
        proof {
            assert(choices.deep_view() =~= self.choices.deep_view());
        }
        McConfig { choices }
    }
}

impl McConfig {
    /// An empty choice list, the default for a fresh game.
    pub fn new() -> (r: McConfig)
        ensures
            r@ == Seq::<Seq<char>>::empty(),
    {
        let r = McConfig { choices: Vec::new() };
        proof {
            assert(r@ =~= Seq::<Seq<char>>::empty());
        }
        r
    }
}

/// The kind-specific configuration attached to a question.
#[derive(Debug)]
pub enum QuestionConfig {
    Standard,
    MultiAnswer,
    MultipleChoice(McConfig),
}

/// Mathematical view of a question configuration.
#[verifier::ext_equal]
pub ghost enum QuestionConfigView {
    Standard,
    MultiAnswer,
    MultipleChoice(Seq<Seq<char>>),
}

impl View for QuestionConfig {
    type V = QuestionConfigView;

    open spec fn view(&self) -> QuestionConfigView {
        match self {
            QuestionConfig::Standard => QuestionConfigView::Standard,
            QuestionConfig::MultiAnswer => QuestionConfigView::MultiAnswer,
            QuestionConfig::MultipleChoice(mc) => QuestionConfigView::MultipleChoice(mc@),
        }
    }
}

impl DeepView for QuestionConfig {
    type V = QuestionConfigView;

    open spec fn deep_view(&self) -> QuestionConfigView {
        self.view()
    }
}

/// The kind a configuration belongs to.
pub open spec fn config_kind(c: QuestionConfigView) -> QuestionKind {
    match c {
        QuestionConfigView::Standard => QuestionKind::Standard,
        QuestionConfigView::MultiAnswer => QuestionKind::MultiAnswer,
        QuestionConfigView::MultipleChoice(_) => QuestionKind::MultipleChoice,
    }
}

impl Clone for QuestionConfig {
    fn clone(&self) -> (r: Self)
        ensures
            r@ == self@,
    {
        match self {
            QuestionConfig::Standard => QuestionConfig::Standard,
            QuestionConfig::MultiAnswer => QuestionConfig::MultiAnswer,
            QuestionConfig::MultipleChoice(mc) => QuestionConfig::MultipleChoice(mc.clone()),
        }
    }
}

impl QuestionConfig {
    /// The kind this configuration belongs to.
    pub fn kind(&self) -> (r: QuestionKind)
        ensures
            r == config_kind(self@),
    {
        match self {
            QuestionConfig::Standard => QuestionKind::Standard,
            QuestionConfig::MultiAnswer => QuestionKind::MultiAnswer,
            QuestionConfig::MultipleChoice(_) => QuestionKind::MultipleChoice,
        }
    }

    /// The default configuration for a question of the given kind; a
    /// multiple-choice question starts from the game's default choice list.
    pub fn default_for(kind: QuestionKind, default_mc: &McConfig) -> (r: QuestionConfig)
        ensures
            r@ == spec_default_config(kind, default_mc@),
    {
        match kind {
            QuestionKind::Standard => QuestionConfig::Standard,
            QuestionKind::MultiAnswer => QuestionConfig::MultiAnswer,
            QuestionKind::MultipleChoice => QuestionConfig::MultipleChoice(default_mc.clone()),
        }
    }
}

/// The default configuration for a kind, given the game's default choice
/// list.
pub open spec fn spec_default_config(kind: QuestionKind, default_mc: Seq<Seq<char>>) -> QuestionConfigView {
    match kind {
        QuestionKind::Standard => QuestionConfigView::Standard,
        QuestionKind::MultiAnswer => QuestionConfigView::MultiAnswer,
        QuestionKind::MultipleChoice => QuestionConfigView::MultipleChoice(default_mc),
    }
}

/// What a team submitted, shaped by the kind of the question.
#[derive(Debug)]
pub enum AnswerContent {
    Standard { answer_text: String },
    MultiAnswer { answers: Vec<String> },
    MultipleChoice { selected: String },
}

/// Mathematical view of an answer's content.
#[verifier::ext_equal]
pub ghost enum AnswerContentView {
    Standard { answer_text: Seq<char> },
    MultiAnswer { answers: Seq<Seq<char>> },
    MultipleChoice { selected: Seq<char> },
}

impl View for AnswerContent {
    type V = AnswerContentView;

    open spec fn view(&self) -> AnswerContentView {
        match self {
            AnswerContent::Standard { answer_text } => AnswerContentView::Standard {
                answer_text: answer_text@,
            },
            AnswerContent::MultiAnswer { answers } => AnswerContentView::MultiAnswer {
                answers: answers.deep_view(),
            },
            AnswerContent::MultipleChoice { selected } => AnswerContentView::MultipleChoice {
                selected: selected@,
            },
        }
    }
}

impl DeepView for AnswerContent {
    type V = AnswerContentView;

    open spec fn deep_view(&self) -> AnswerContentView {
        self.view()
    }
}

impl Clone for AnswerContent {
    fn clone(&self) -> (r: Self)
        ensures
            r@ == self@,
    {
        match self {
            AnswerContent::Standard { answer_text } => AnswerContent::Standard {
                answer_text: answer_text.clone(),
            },
            AnswerContent::MultiAnswer { answers } => {
                let cloned_answers = answers.clone();
                proof {
                    assert(cloned_answers.deep_view() =~= answers.deep_view());
                }
                AnswerContent::MultiAnswer { answers: cloned_answers }
            },
            AnswerContent::MultipleChoice { selected } => AnswerContent::MultipleChoice {
                selected: selected.clone(),
            },
        }
    }
}

impl AnswerContent {
    /// The kind of question this content shape belongs to.
    pub fn kind(&self) -> (r: QuestionKind)
        ensures
            r == content_kind(self@),
    {
        match self {
            AnswerContent::Standard { .. } => QuestionKind::Standard,
            AnswerContent::MultiAnswer { .. } => QuestionKind::MultiAnswer,
            AnswerContent::MultipleChoice { .. } => QuestionKind::MultipleChoice,
        }
    }
}

/// The kind of question a content shape belongs to.
pub open spec fn content_kind(c: AnswerContentView) -> QuestionKind {
    match c {
        AnswerContentView::Standard { .. } => QuestionKind::Standard,
        AnswerContentView::MultiAnswer { .. } => QuestionKind::MultiAnswer,
        AnswerContentView::MultipleChoice { .. } => QuestionKind::MultipleChoice,
    }
}

/// The key under which an answer's content is compared for auto-scoring:
/// the trimmed, case-folded text for standard questions, the trimmed,
/// case-folded selection for multiple choice, and nothing for multi-answer
/// questions, which never take part in auto-scoring.
pub open spec fn content_key(c: AnswerContentView) -> Option<Seq<u8>> {
    match c {
        AnswerContentView::Standard { answer_text } => Some(answer_key(answer_text)),
        AnswerContentView::MultiAnswer { .. } => None,
        AnswerContentView::MultipleChoice { selected } => Some(answer_key(selected)),
    }
}

/// A team's colour: a hex code plus a display name.
#[derive(Debug)]
pub struct TeamColor {
    pub hex_code: String,
    pub name: String,
}

/// Mathematical view of a team colour.
#[verifier::ext_equal]
pub ghost struct TeamColorView {
    pub hex_code: Seq<char>,
    pub name: Seq<char>,
}

impl View for TeamColor {
    type V = TeamColorView;

    open spec fn view(&self) -> TeamColorView {
        TeamColorView { hex_code: self.hex_code@, name: self.name@ }
    }
}

impl DeepView for TeamColor {
    type V = TeamColorView;

    open spec fn deep_view(&self) -> TeamColorView {
        self.view()
    }
}

impl Clone for TeamColor {
    fn clone(&self) -> (r: Self)
        ensures
            r@ == self@,
    {
        TeamColor { hex_code: self.hex_code.clone(), name: self.name.clone() }
    }
}

/// A team's record on one question: who answered, what they submitted, and
/// the score the answer carries, together with a snapshot of the question's
/// kind and configuration at submission time. In a team-filtered view the
/// content is absent when that team did not submit.
#[derive(Debug)]
pub struct TeamQuestionResult {
    pub team_name: String,
    pub score: ScoreData,
    pub content: Option<AnswerContent>,
    pub question_kind: QuestionKind,
    pub question_config: QuestionConfig,
}

/// Mathematical view of a team's record on one question.
#[verifier::ext_equal]
pub ghost struct AnswerView {
    pub team_name: Seq<char>,
    pub score: ScoreData,
    pub content: Option<AnswerContentView>,
    pub question_kind: QuestionKind,
    pub question_config: QuestionConfigView,
}

impl View for TeamQuestionResult {
    type V = AnswerView;

    open spec fn view(&self) -> AnswerView {
        AnswerView {
            team_name: self.team_name@,
            score: self.score,
            content: match self.content {
                Some(c) => Some(c@),
                None => None,
            },
            question_kind: self.question_kind,
            question_config: self.question_config@,
        }
    }
}

impl DeepView for TeamQuestionResult {
    type V = AnswerView;

    open spec fn deep_view(&self) -> AnswerView {
        self.view()
    }
}

impl Clone for TeamQuestionResult {
    fn clone(&self) -> (r: Self)
        ensures
            r@ == self@,
    {
        TeamQuestionResult {
            team_name: self.team_name.clone(),
            score: self.score,
            content: match &self.content {
                Some(c) => Some(c.clone()),
                None => None,
            },
            question_kind: self.question_kind,
            question_config: self.question_config.clone(),
        }
    }
}

/// The key under which an answer takes part in auto-scoring, if any.
pub open spec fn answer_content_key(a: AnswerView) -> Option<Seq<u8>> {
    match a.content {
        Some(c) => content_key(c),
        None => None,
    }
}

/// The index of the first answer in `answers` belonging to the team with
/// the given folded name, or `-1` when no answer does.
pub open spec fn answer_index(answers: Seq<AnswerView>, name: Seq<u8>) -> int
    decreases answers.len(),
{
    if answers.len() == 0 {
        -1
    } else if name_key(answers[0].team_name) == name {
        0
    } else {
        let rest = answer_index(answers.drop_first(), name);
        if rest == -1 {
            -1
        } else {
            1 + rest
        }
    }
}

/// When some answer matches, `answer_index` returns the first match.
pub proof fn lemma_answer_index_found(answers: Seq<AnswerView>, name: Seq<u8>, k: int)
    requires
        0 <= k < answers.len(),
        name_key(answers[k].team_name) == name,
        forall|j: int| 0 <= j < k ==> name_key(answers[j].team_name) != name,
    ensures
        answer_index(answers, name) == k,
    decreases answers.len(),
{
    if k == 0 {
    } else {
        lemma_answer_index_found(answers.drop_first(), name, k - 1);
    }
}

/// When no answer matches, `answer_index` returns `-1`.
pub proof fn lemma_answer_index_none(answers: Seq<AnswerView>, name: Seq<u8>)
    requires
        forall|j: int| 0 <= j < answers.len() ==> name_key(answers[j].team_name) != name,
    ensures
        answer_index(answers, name) == -1,
    decreases answers.len(),
{
    if answers.len() > 0 {
        lemma_answer_index_none(answers.drop_first(), name);
    }
}

/// What `answer_index` returns always points at the first match.
pub proof fn lemma_answer_index_props(answers: Seq<AnswerView>, name: Seq<u8>)
    ensures
        answer_index(answers, name) == -1 ==> forall|j: int|
            0 <= j < answers.len() ==> name_key(answers[j].team_name) != name,
        answer_index(answers, name) != -1 ==> {
            let k = answer_index(answers, name);
            &&& 0 <= k < answers.len()
            &&& name_key(answers[k].team_name) == name
            &&& forall|j: int| 0 <= j < k ==> name_key(answers[j].team_name) != name
        },
    decreases answers.len(),
{
    if answers.len() == 0 {
    } else if name_key(answers[0].team_name) == name {
    } else {
        let rest = answers.drop_first();
        lemma_answer_index_props(rest, name);
        assert(forall|j: int| 0 <= j < rest.len() ==> rest[j] == answers[j + 1]);
        if answer_index(rest, name) == -1 {
            assert forall|j: int| 0 <= j < answers.len() implies name_key(
                answers[j].team_name,
            ) != name by {
                if j > 0 {
                    assert(answers[j] == rest[j - 1]);
                }
            }
        } else {
            let k = answer_index(rest, name);
            assert(answers[k + 1] == rest[k]);
            assert forall|j: int| 0 <= j < k + 1 implies name_key(answers[j].team_name) != name by {
                if j > 0 {
                    assert(answers[j] == rest[j - 1]);
                }
            }
        }
    }
}

/// A question reduced to one team's record: that team's answer when it
/// submitted one, and otherwise a zero-scored placeholder with no content
/// that carries the question's kind and configuration.
pub open spec fn spec_filter_for_team(q: QuestionView, team_name: Seq<char>) -> AnswerView {
    let idx = answer_index(q.answers, name_key(team_name));
    if idx >= 0 {
        q.answers[idx]
    } else {
        AnswerView {
            team_name,
            score: ScoreData {
                question_points: 0,
                bonus_points: 0,
                speed_bonus_points: 0,
                override_points: 0,
            },
            content: None,
            question_kind: q.question_kind,
            question_config: q.question_config,
        }
    }
}

/// One question: its settings and the answers submitted so far, in
/// submission order.
#[derive(Debug)]
pub struct Question {
    pub timer_duration: u32,
    pub question_points: u32,
    pub bonus_increment: u32,
    pub speed_bonus_enabled: bool,
    pub question_kind: QuestionKind,
    pub question_config: QuestionConfig,
    pub answers: Vec<TeamQuestionResult>,
}

/// Mathematical view of a question.
#[verifier::ext_equal]
pub ghost struct QuestionView {
    pub timer_duration: u32,
    pub question_points: u32,
    pub bonus_increment: u32,
    pub speed_bonus_enabled: bool,
    pub question_kind: QuestionKind,
    pub question_config: QuestionConfigView,
    pub answers: Seq<AnswerView>,
}

impl View for Question {
    type V = QuestionView;

    open spec fn view(&self) -> QuestionView {
        QuestionView {
            timer_duration: self.timer_duration,
            question_points: self.question_points,
            bonus_increment: self.bonus_increment,
            speed_bonus_enabled: self.speed_bonus_enabled,
            question_kind: self.question_kind,
            question_config: self.question_config@,
            answers: self.answers.deep_view(),
        }
    }
}

impl DeepView for Question {
    type V = QuestionView;

    open spec fn deep_view(&self) -> QuestionView {
        self.view()
    }
}

impl Clone for Question {
    fn clone(&self) -> (r: Self)
        ensures
            r@ == self@,
    {
        let answers = clone_answers(&self.answers);
        Question {
            timer_duration: self.timer_duration,
            question_points: self.question_points,
            bonus_increment: self.bonus_increment,
            speed_bonus_enabled: self.speed_bonus_enabled,
            question_kind: self.question_kind,
            question_config: self.question_config.clone(),
            answers,
        }
    }
}

/// Clone a list of answers, preserving its view.
fn clone_answers(v: &Vec<TeamQuestionResult>) -> (r: Vec<TeamQuestionResult>)
    ensures
        r.deep_view() == v.deep_view(),
{
    let mut r: Vec<TeamQuestionResult> = Vec::new();
    let mut i: usize = 0;
    while i < v.len()
        invariant
            i <= v.len(),
            r.deep_view() == v.deep_view().take(i as int),
        decreases v.len() - i,
    {
        let ghost prev = r@;
        let ghost prev_deep = r.deep_view();
        let c = v[i].clone();
        r.push(c);
        proof {
            assert(prev_deep.len() == i as int);
            assert(prev.len() == i as int);
            assert(r@ == prev.push(c));
            assert forall|j: int| 0 <= j < r@.len() implies r.deep_view()[j] == v.deep_view().take(
                i as int + 1,
            )[j] by {
                if j < i as int {
                    assert(r@[j] == prev[j]);
                    assert(prev_deep[j] == v.deep_view().take(i as int)[j]);
                } else {
                    assert(r@[j] == c);
                }
            }
            assert(r.deep_view() =~= v.deep_view().take(i as int + 1));
        }
        i = i + 1;
    }
    proof {
        assert(r.deep_view() =~= v.deep_view());
    }
    r
}

impl Question {
    /// Whether any team has submitted an answer.
    pub fn has_answers(&self) -> (r: bool)
        ensures
            r == (self.answers@.len() > 0),
    {
        self.answers.len() > 0
    }

    /// The index of the named team's answer on this question
    /// (case-insensitive), if it submitted one.
    pub fn find_answer(&self, team_name: &str) -> (r: Option<usize>)
        ensures
            match r {
                Some(k) => {
                    &&& k as int == answer_index(self@.answers, name_key(team_name@))
                    &&& 0 <= k < self.answers@.len()
                    &&& name_key(self@.answers[k as int].team_name) == name_key(team_name@)
                },
                None => answer_index(self@.answers, name_key(team_name@)) == -1,
            },
    {
        let mut i: usize = 0;
        while i < self.answers.len()
            invariant
                i <= self.answers@.len(),
                forall|j: int|
                    0 <= j < i ==> name_key(self@.answers[j].team_name) != name_key(team_name@),
            decreases self.answers@.len() - i,
        {
            if crate::norm::names_equal(self.answers[i].team_name.as_str(), team_name) {
                proof {
                    lemma_answer_index_found(self@.answers, name_key(team_name@), i as int);
                }
                return Some(i);
            }
            i = i + 1;
        }
        proof {
            lemma_answer_index_none(self@.answers, name_key(team_name@));
        }
        None
    }

    /// This question reduced to one team's record: that team's answer when
    /// it submitted one, and otherwise a zero-scored placeholder with no
    /// content.
    pub fn filter_for_team(&self, team_name: &str) -> (r: TeamQuestionResult)
        ensures
            r@ == spec_filter_for_team(self@, team_name@),
    {
        let mut i: usize = 0;
        while i < self.answers.len()
            invariant
                i <= self.answers@.len(),
                forall|j: int|
                    0 <= j < i ==> name_key(self@.answers[j].team_name) != name_key(team_name@),
        decreases self.answers@.len() - i,
        {
            if crate::norm::names_equal(self.answers[i].team_name.as_str(), team_name) {
                proof {
                    lemma_answer_index_found(self@.answers, name_key(team_name@), i as int);
                }
                return self.answers[i].clone();
            }
            i = i + 1;
        }
        proof {
            lemma_answer_index_none(self@.answers, name_key(team_name@));
        }
        TeamQuestionResult {
            team_name: team_name.to_owned(),
            score: ScoreData::new(),
            content: None,
            question_kind: self.question_kind,
            question_config: self.question_config.clone(),
        }
    }
}

/// Game-wide settings: the defaults applied to newly created or still
/// unanswered questions, and the speed-bonus parameters.
#[derive(Debug)]
pub struct GameSettings {
    pub default_timer_duration: u32,
    pub default_question_points: u32,
    pub default_bonus_increment: u32,
    pub default_question_type: QuestionKind,
    pub default_mc_config: McConfig,
    pub speed_bonus_enabled: bool,
    pub speed_bonus_num_teams: u32,
    pub speed_bonus_first_place_points: u32,
}

/// Mathematical view of the game settings.
#[verifier::ext_equal]
pub ghost struct SettingsView {
    pub default_timer_duration: u32,
    pub default_question_points: u32,
    pub default_bonus_increment: u32,
    pub default_question_type: QuestionKind,
    pub default_mc_config: Seq<Seq<char>>,
    pub speed_bonus_enabled: bool,
    pub speed_bonus_num_teams: u32,
    pub speed_bonus_first_place_points: u32,
}

impl View for GameSettings {
    type V = SettingsView;

    open spec fn view(&self) -> SettingsView {
        SettingsView {
            default_timer_duration: self.default_timer_duration,
            default_question_points: self.default_question_points,
            default_bonus_increment: self.default_bonus_increment,
            default_question_type: self.default_question_type,
            default_mc_config: self.default_mc_config@,
            speed_bonus_enabled: self.speed_bonus_enabled,
            speed_bonus_num_teams: self.speed_bonus_num_teams,
            speed_bonus_first_place_points: self.speed_bonus_first_place_points,
        }
    }
}

impl DeepView for GameSettings {
    type V = SettingsView;

    open spec fn deep_view(&self) -> SettingsView {
        self.view()
    }
}

impl Clone for GameSettings {
    fn clone(&self) -> (r: Self)
        ensures
            r@ == self@,
    {
        GameSettings {
            default_timer_duration: self.default_timer_duration,
            default_question_points: self.default_question_points,
            default_bonus_increment: self.default_bonus_increment,
            default_question_type: self.default_question_type,
            default_mc_config: self.default_mc_config.clone(),
            speed_bonus_enabled: self.speed_bonus_enabled,
            speed_bonus_num_teams: self.speed_bonus_num_teams,
            speed_bonus_first_place_points: self.speed_bonus_first_place_points,
        }
    }
}

/// One team: its display data, its running score totals, and whether its
/// connection is currently live.
#[derive(Debug)]
pub struct TeamData {
    pub team_name: String,
    pub team_members: Vec<String>,
    pub team_color: TeamColor,
    pub score: ScoreData,
    pub connected: bool,
}

/// Mathematical view of a team.
#[verifier::ext_equal]
pub ghost struct TeamDataView {
    pub team_name: Seq<char>,
    pub team_members: Seq<Seq<char>>,
    pub team_color: TeamColorView,
    pub score: ScoreData,
    pub connected: bool,
}

impl View for TeamData {
    type V = TeamDataView;

    open spec fn view(&self) -> TeamDataView {
        TeamDataView {
            team_name: self.team_name@,
            team_members: self.team_members.deep_view(),
            team_color: self.team_color@,
            score: self.score,
            connected: self.connected,
        }
    }
}

impl DeepView for TeamData {
    type V = TeamDataView;

    open spec fn deep_view(&self) -> TeamDataView {
        self.view()
    }
}

impl Clone for TeamData {
    fn clone(&self) -> (r: Self)
        ensures
            r@ == self@,
    {
        let team_members = self.team_members.clone();
        proof {
            assert(team_members.deep_view() =~= self.team_members.deep_view());
        }
        TeamData {
            team_name: self.team_name.clone(),
            team_members,
            team_color: self.team_color.clone(),
            score: self.score,
            connected: self.connected,
        }
    }
}

/// Clone a team list, preserving its view.
pub fn clone_teams(v: &Vec<TeamData>) -> (r: Vec<TeamData>)
    ensures
        r.deep_view() == v.deep_view(),
{
    let r = v.clone();
    proof {
        assert forall|i: int| 0 <= i < r@.len() implies r@[i]@ == v@[i]@ by {}
        assert(r.deep_view() =~= v.deep_view());
    }
    r
}

/// Clone a question list, preserving its view.
pub fn clone_questions(v: &Vec<Question>) -> (r: Vec<Question>)
    ensures
        r.deep_view() == v.deep_view(),
{
    let r = v.clone();
    proof {
        assert forall|i: int| 0 <= i < r@.len() implies r@[i]@ == v@[i]@ by {}
        assert(r.deep_view() =~= v.deep_view());
    }
    r
}

/// The index of the first team in `teams` with the given folded name, or
/// `-1` when no team has it.
pub open spec fn team_index(teams: Seq<TeamDataView>, name: Seq<u8>) -> int
    decreases teams.len(),
{
    if teams.len() == 0 {
        -1
    } else if name_key(teams[0].team_name) == name {
        0
    } else {
        let rest = team_index(teams.drop_first(), name);
        if rest == -1 {
            -1
        } else {
            1 + rest
        }
    }
}

/// When some team matches, `team_index` returns the first match.
pub proof fn lemma_team_index_found(teams: Seq<TeamDataView>, name: Seq<u8>, k: int)
    requires
        0 <= k < teams.len(),
        name_key(teams[k].team_name) == name,
        forall|j: int| 0 <= j < k ==> name_key(teams[j].team_name) != name,
    ensures
        team_index(teams, name) == k,
    decreases teams.len(),
{
    if k == 0 {
    } else {
        lemma_team_index_found(teams.drop_first(), name, k - 1);
    }
}

/// When no team matches, `team_index` returns `-1`.
pub proof fn lemma_team_index_none(teams: Seq<TeamDataView>, name: Seq<u8>)
    requires
        forall|j: int| 0 <= j < teams.len() ==> name_key(teams[j].team_name) != name,
    ensures
        team_index(teams, name) == -1,
    decreases teams.len(),
{
    if teams.len() > 0 {
        lemma_team_index_none(teams.drop_first(), name);
    }
}

/// What `team_index` returns always points at the first match.
pub proof fn lemma_team_index_props(teams: Seq<TeamDataView>, name: Seq<u8>)
    ensures
        team_index(teams, name) == -1 ==> forall|j: int|
            0 <= j < teams.len() ==> name_key(teams[j].team_name) != name,
        team_index(teams, name) != -1 ==> {
            let k = team_index(teams, name);
            &&& 0 <= k < teams.len()
            &&& name_key(teams[k].team_name) == name
            &&& forall|j: int| 0 <= j < k ==> name_key(teams[j].team_name) != name
        },
    decreases teams.len(),
{
    if teams.len() == 0 {
    } else if name_key(teams[0].team_name) == name {
    } else {
        let rest = teams.drop_first();
        lemma_team_index_props(rest, name);
        assert(forall|j: int| 0 <= j < rest.len() ==> rest[j] == teams[j + 1]);
        if team_index(rest, name) == -1 {
            assert forall|j: int| 0 <= j < teams.len() implies name_key(teams[j].team_name)
                != name by {
                if j > 0 {
                    assert(teams[j] == rest[j - 1]);
                }
            }
        } else {
            let k = team_index(rest, name);
            assert(teams[k + 1] == rest[k]);
            assert forall|j: int| 0 <= j < k + 1 implies name_key(teams[j].team_name) != name by {
                if j > 0 {
                    assert(teams[j] == rest[j - 1]);
                }
            }
        }
    }
}

} // verus!
