//! The per-game state machine: teams, questions, scores, and the timer.
//!
//! A `Game` holds the authoritative state of one quiz. Every mutating
//! operation preserves the well-formedness predicate [`wf`], which gathers
//! the invariants of the model: the current-question index is in range, team
//! names are unique up to case, no team answers a question twice, every
//! stored speed bonus equals the speed-bonus rule applied to its question,
//! every team's totals equal the sums over its answers, and the timer flags
//! are consistent with the presence of a tick task.

use vstd::prelude::*;

use crate::norm::name_key;
use crate::score::{add_clamped, clamp_i32, ScoreData};
use crate::types::{
    answer_index, team_index, AnswerContent, AnswerView, GameSettings, McConfig, Question,
    QuestionConfig, QuestionKind, QuestionView, SettingsView, TeamData, TeamDataView,
    TeamQuestionResult,
};

verus! {

/// One game: identity, connection flags, questions, teams, settings, and
/// timer state. The tick task itself lives outside the model; its presence
/// is mirrored by `timer_task_present`.
#[derive(Debug)]
pub struct Game {
    pub game_code: String,
    pub host_user_id: String,
    pub host_attached: bool,
    pub current_question_number: usize,
    pub timer_running: bool,
    pub timer_seconds_remaining: Option<u32>,
    pub timer_task_present: bool,
    pub teams: Vec<TeamData>,
    pub questions: Vec<Question>,
    pub game_settings: GameSettings,
}

/// How many of the first `i` answers carry positive question points; this is
/// the 0-based place of answer `i` in the speed-bonus walk.
pub open spec fn count_credited(answers: Seq<AnswerView>, i: int) -> int
    decreases i,
{
    if i <= 0 {
        0
    } else {
        count_credited(answers, i - 1) + if answers[i - 1].score.question_points > 0 {
            1int
        } else {
            0int
        }
    }
}

/// The speed bonus owed to answer `i` of question `q` under settings `s`:
/// zero unless the question has speed bonuses enabled and the answer carries
/// positive question points; otherwise `first * (n - place) / n` for the
/// first `n` such answers in submission order, and zero from place `n` on.
/// The quotient is clamped to the `i32` range.
pub open spec fn expected_speed_bonus(q: QuestionView, s: SettingsView, i: int) -> int {
    if !q.speed_bonus_enabled || q.answers[i].score.question_points <= 0 {
        0
    } else {
        let place = count_credited(q.answers, i);
        let n = s.speed_bonus_num_teams as int;
        let first = s.speed_bonus_first_place_points as int;
        if place < n {
            clamp_i32((first * (n - place)) / n)
        } else {
            0
        }
    }
}

/// `q` with every answer's speed bonus replaced by the amount the
/// speed-bonus rule assigns it.
pub open spec fn with_speed(q: QuestionView, s: SettingsView) -> QuestionView {
    QuestionView {
        answers: Seq::new(
            q.answers.len(),
            |i: int|
                AnswerView {
                    score: ScoreData {
                        speed_bonus_points: expected_speed_bonus(q, s, i) as i32,
                        ..q.answers[i].score
                    },
                    ..q.answers[i]
                },
        ),
        ..q
    }
}

/// The running totals of a team, accumulated with clamped addition.
pub ghost struct AggView {
    pub question_points: int,
    pub bonus_points: int,
    pub speed_bonus_points: int,
}

/// What question `q` contributes to the totals of the team with folded name
/// `name`: its answer's score components, or zero when it did not answer.
pub open spec fn answer_contrib(q: QuestionView, name: Seq<u8>) -> AggView {
    let k = answer_index(q.answers, name);
    if k >= 0 {
        AggView {
            question_points: q.answers[k].score.question_points as int,
            bonus_points: q.answers[k].score.bonus_points as int,
            speed_bonus_points: q.answers[k].score.speed_bonus_points as int,
        }
    } else {
        AggView { question_points: 0, bonus_points: 0, speed_bonus_points: 0 }
    }
}

/// A team's totals over a sequence of questions: per-component sums of its
/// answers' scores, each addition clamped to the `i32` range.
pub open spec fn team_totals(questions: Seq<QuestionView>, name: Seq<u8>) -> AggView
    decreases questions.len(),
{
    if questions.len() == 0 {
        AggView { question_points: 0, bonus_points: 0, speed_bonus_points: 0 }
    } else {
        let prev = team_totals(questions.drop_last(), name);
        let c = answer_contrib(questions.last(), name);
        AggView {
            question_points: clamp_i32(prev.question_points + c.question_points),
            bonus_points: clamp_i32(prev.bonus_points + c.bonus_points),
            speed_bonus_points: clamp_i32(prev.speed_bonus_points + c.speed_bonus_points),
        }
    }
}

/// `teams` with every team's derived totals recomputed from `questions`;
/// manual overrides and display data are kept.
pub open spec fn with_totals(teams: Seq<TeamDataView>, questions: Seq<QuestionView>) -> Seq<
    TeamDataView,
> {
    Seq::new(
        teams.len(),
        |t: int|
            TeamDataView {
                score: ScoreData {
                    question_points: team_totals(questions, name_key(teams[t].team_name)).question_points as i32,
                    bonus_points: team_totals(questions, name_key(teams[t].team_name)).bonus_points as i32,
                    speed_bonus_points: team_totals(questions, name_key(teams[t].team_name)).speed_bonus_points as i32,
                    override_points: teams[t].score.override_points,
                },
                ..teams[t]
            },
    )
}

/// No two teams share a name, compared case-insensitively.
pub open spec fn teams_unique(teams: Seq<TeamDataView>) -> bool {
    forall|i: int, j: int|
        0 <= i < j < teams.len() ==> name_key(teams[i].team_name) != name_key(teams[j].team_name)
}

/// No team answered this question twice, compared case-insensitively.
pub open spec fn answers_unique(q: QuestionView) -> bool {
    forall|i: int, j: int|
        0 <= i < j < q.answers.len() ==> name_key(q.answers[i].team_name) != name_key(
            q.answers[j].team_name,
        )
}

/// Every stored speed bonus on `q` equals what the speed-bonus rule assigns.
pub open spec fn speed_ok(q: QuestionView, s: SettingsView) -> bool {
    forall|i: int|
        0 <= i < q.answers.len() ==> q.answers[i].score.speed_bonus_points as int
            == expected_speed_bonus(q, s, i)
}

/// A stored answer always has content, the content's shape matches the
/// question-kind snapshot taken at submission, and that snapshot's
/// configuration belongs to the snapshot's kind.
pub open spec fn answer_shape_ok(a: AnswerView) -> bool {
    &&& a.content is Some
    &&& match a.content {
        Some(c) => crate::types::content_kind(c) == a.question_kind,
        None => false,
    }
    &&& crate::types::config_kind(a.question_config) == a.question_kind
}

/// A question's configuration belongs to its kind, and its answers are
/// well-shaped and unique.
pub open spec fn question_ok(q: QuestionView) -> bool {
    &&& crate::types::config_kind(q.question_config) == q.question_kind
    &&& answers_unique(q)
    &&& forall|i: int| 0 <= i < q.answers.len() ==> answer_shape_ok(#[trigger] q.answers[i])
}

/// Every team's derived totals equal the sums of its answers' components
/// over all questions.
pub open spec fn aggregates_ok(teams: Seq<TeamDataView>, questions: Seq<QuestionView>) -> bool {
    forall|t: int|
        0 <= t < teams.len() ==> {
            let tot = team_totals(questions, name_key(#[trigger] teams[t].team_name));
            &&& teams[t].score.question_points as int == tot.question_points
            &&& teams[t].score.bonus_points as int == tot.bonus_points
            &&& teams[t].score.speed_bonus_points as int == tot.speed_bonus_points
        }
}

impl Game {
    /// The questions, viewed mathematically.
    pub open spec fn questions_view(&self) -> Seq<QuestionView> {
        self.questions.deep_view()
    }

    /// The teams, viewed mathematically.
    pub open spec fn teams_view(&self) -> Seq<TeamDataView> {
        self.teams.deep_view()
    }

    /// The timer flags are consistent: the running flag and the tick task
    /// mirror one another, and a running timer always has seconds left.
    pub open spec fn timer_ok(&self) -> bool {
        &&& self.timer_running <==> self.timer_task_present
        &&& self.timer_running ==> match self.timer_seconds_remaining {
            Some(n) => n > 0,
            None => false,
        }
    }

    /// Well-formedness: all invariants of the game state.
    pub open spec fn wf(&self) -> bool {
        &&& 1 <= self.current_question_number <= self.questions_view().len()
        &&& teams_unique(self.teams_view())
        &&& forall|i: int|
            0 <= i < self.questions_view().len() ==> question_ok(#[trigger] self.questions_view()[i])
        &&& forall|i: int|
            0 <= i < self.questions_view().len() ==> speed_ok(
                #[trigger] self.questions_view()[i],
                self.game_settings@,
            )
        &&& aggregates_ok(self.teams_view(), self.questions_view())
        &&& self.timer_ok()
    }

    /// A fresh game: default settings, one empty standard question, timer
    /// stopped at the default duration, the creating host attached, and no
    /// teams.
    pub fn new(game_code: String, host_user_id: String) -> (g: Game)
        ensures
            g.wf(),
            g.game_code == game_code,
            g.host_user_id == host_user_id,
            g.host_attached,
            g.current_question_number == 1,
            !g.timer_running,
            g.timer_seconds_remaining == Some(30u32),
            !g.timer_task_present,
            g.teams_view() == Seq::<TeamDataView>::empty(),
            g.questions_view().len() == 1,
            g.questions_view()[0].timer_duration == 30,
            g.questions_view()[0].question_points == 50,
            g.questions_view()[0].bonus_increment == 5,
            !g.questions_view()[0].speed_bonus_enabled,
            g.questions_view()[0].question_kind == QuestionKind::Standard,
            g.questions_view()[0].question_config == crate::types::QuestionConfigView::Standard,
            g.questions_view()[0].answers == Seq::<AnswerView>::empty(),
            g.game_settings@.default_timer_duration == 30,
            g.game_settings@.default_question_points == 50,
            g.game_settings@.default_bonus_increment == 5,
            g.game_settings@.default_question_type == QuestionKind::Standard,
            g.game_settings@.default_mc_config == Seq::<Seq<char>>::empty(),
            !g.game_settings@.speed_bonus_enabled,
            g.game_settings@.speed_bonus_num_teams == 2,
            g.game_settings@.speed_bonus_first_place_points == 10,
    {
        let game_settings = GameSettings {
            default_timer_duration: 30,
            default_question_points: 50,
            default_bonus_increment: 5,
            default_question_type: QuestionKind::Standard,
            default_mc_config: McConfig::new(),
            speed_bonus_enabled: false,
            speed_bonus_num_teams: 2,
            speed_bonus_first_place_points: 10,
        };
        let initial_question = Question {
            timer_duration: 30,
            question_points: 50,
            bonus_increment: 5,
            speed_bonus_enabled: false,
            question_kind: QuestionKind::Standard,
            question_config: QuestionConfig::Standard,
            answers: Vec::new(),
        };
        let mut questions: Vec<Question> = Vec::new();
        questions.push(initial_question);
        let g = Game {
            game_code,
            host_user_id,
            host_attached: true,
            current_question_number: 1,
            timer_running: false,
            timer_seconds_remaining: Some(30),
            timer_task_present: false,
            teams: Vec::new(),
            questions,
            game_settings,
        };
        proof {
            assert(g.teams_view() =~= Seq::<TeamDataView>::empty());
            assert(g.questions_view()[0].answers =~= Seq::<AnswerView>::empty());
        }
        g
    }

    /// Attach the host connection.
    pub fn set_host_tx(&mut self)
        ensures
            *final(self) == (Game { host_attached: true, ..*old(self) }),
    {
        self.host_attached = true;
    }

    /// Detach the host connection.
    pub fn clear_host_tx(&mut self)
        ensures
            *final(self) == (Game { host_attached: false, ..*old(self) }),
    {
        self.host_attached = false;
    }

    /// A borrow of the current question.
    pub fn current_question(&self) -> (r: &Question)
        requires
            self.wf(),
        ensures
            r@ == self.questions_view()[self.current_question_number - 1],
    {
        &self.questions[self.current_question_number - 1]
    }

    /// The index of the team with the given name (case-insensitive), if any.
    pub fn find_team(&self, team_name: &str) -> (r: Option<usize>)
        ensures
            match r {
                Some(k) => k as int == team_index(self.teams_view(), name_key(team_name@)),
                None => team_index(self.teams_view(), name_key(team_name@)) == -1,
            },
    {
        let mut i: usize = 0;
        while i < self.teams.len()
            invariant
                i <= self.teams@.len(),
                forall|j: int|
                    0 <= j < i ==> name_key(self.teams_view()[j].team_name) != name_key(
                        team_name@,
                    ),
            decreases self.teams@.len() - i,
        {
            if crate::norm::names_equal(self.teams[i].team_name.as_str(), team_name) {
                proof {
                    crate::types::lemma_team_index_found(
                        self.teams_view(),
                        name_key(team_name@),
                        i as int,
                    );
                }
                return Some(i);
            }
            i = i + 1;
        }
        proof {
            crate::types::lemma_team_index_none(self.teams_view(), name_key(team_name@));
        }
        None
    }

    /// Mark the named team connected or disconnected. Returns whether the
    /// team exists.
    pub fn set_team_connected(&mut self, team_name: &str, connected: bool) -> (r: bool)
        requires
            old(self).wf(),
        ensures
            final(self).wf(),
            ({
                let k = team_index(old(self).teams_view(), name_key(team_name@));
                &&& r == (k >= 0)
                &&& if k >= 0 {
                    &&& final(self).teams_view() == old(self).teams_view().update(
                        k,
                        TeamDataView { connected, ..old(self).teams_view()[k] },
                    )
                    &&& final(self).questions == old(self).questions
                    &&& equal_but_teams(old(self), final(self))
                } else {
                    *final(self) == *old(self)
                }
            }),
    {
        let found = self.find_team(team_name);
        match found {
            Some(k) => {
                proof {
                    crate::types::lemma_team_index_props(
                        old(self).teams_view(),
                        name_key(team_name@),
                    );
                }
                self.teams[k].connected = connected;
                proof {
                    assert(final(self).teams_view() =~= old(self).teams_view().update(
                        k as int,
                        TeamDataView { connected, ..old(self).teams_view()[k as int] },
                    ));
                    lemma_totals_unchanged(old(self), final(self));
                }
                true
            },
            None => false,
        }
    }
}

/// The two games agree on every field other than the team list and the
/// question list.
pub open spec fn frame(a: &Game, b: &Game) -> bool {
    &&& a.game_code == b.game_code
    &&& a.host_user_id == b.host_user_id
    &&& a.host_attached == b.host_attached
    &&& a.current_question_number == b.current_question_number
    &&& a.timer_running == b.timer_running
    &&& a.timer_seconds_remaining == b.timer_seconds_remaining
    &&& a.timer_task_present == b.timer_task_present
    &&& a.game_settings == b.game_settings
}

/// The two games agree on everything except the team list.
pub open spec fn equal_but_teams(a: &Game, b: &Game) -> bool {
    &&& frame(a, b)
    &&& a.questions == b.questions
}

/// The two questions agree on everything except their answer lists.
pub open spec fn same_question_header(a: QuestionView, b: QuestionView) -> bool {
    &&& a.timer_duration == b.timer_duration
    &&& a.question_points == b.question_points
    &&& a.bonus_increment == b.bonus_increment
    &&& a.speed_bonus_enabled == b.speed_bonus_enabled
    &&& a.question_kind == b.question_kind
    &&& a.question_config == b.question_config
}

/// The speed-bonus award for place `place`: `first * (n - place) / n`,
/// clamped to the `i32` range.
fn speed_amount(place: u64, n: u32, first: u32) -> (r: i32)
    requires
        place < n as u64,
    ensures
        r as int == clamp_i32((first as int * (n as int - place as int)) / n as int),
        r >= 0,
{
    let diff: u64 = n as u64 - place;
    proof {
        assert((first as int) * (diff as int) <= 0xFFFF_FFFF * 0xFFFF_FFFF) by (nonlinear_arith)
            requires
                0 <= first as int <= 0xFFFF_FFFF,
                0 <= diff as int <= 0xFFFF_FFFF,
        ;
        assert((first as int) * (diff as int) >= 0) by (nonlinear_arith)
            requires
                0 <= first as int,
                0 <= diff as int,
        ;
    }
    let prod: u64 = (first as u64) * diff;
    let q: u64 = prod / (n as u64);
    proof {
        vstd::arithmetic::div_mod::lemma_div_is_ordered_by_denominator(
            prod as int,
            1,
            n as int,
        );
    }
    if q > (i32::MAX as u64) {
        i32::MAX
    } else {
        q as i32
    }
}

impl Game {
    /// Rewrite every speed bonus on question `qi` to the amount the
    /// speed-bonus rule assigns under the current settings. Nothing else
    /// changes.
    pub fn recompute_speed_bonus(&mut self, qi: usize)
        requires
            qi < old(self).questions@.len(),
        ensures
            frame(old(self), final(self)),
            final(self).teams == old(self).teams,
            final(self).questions@.len() == old(self).questions@.len(),
            forall|j: int|
                0 <= j < old(self).questions@.len() && j != qi ==> final(self).questions@[j] == old(
                    self,
                ).questions@[j],
            final(self).questions_view()[qi as int] == with_speed(
                old(self).questions_view()[qi as int],
                old(self).game_settings@,
            ),
    {
        let ghost oldq: QuestionView = self.questions_view()[qi as int];
        let ghost s: SettingsView = self.game_settings@;
        let num_answers: usize = self.questions[qi].answers.len();
        let mut i: usize = 0;
        let mut place: usize = 0;
        while i < num_answers
            invariant
                qi < self.questions@.len(),
                self.questions@.len() == old(self).questions@.len(),
                forall|j: int|
                    0 <= j < self.questions@.len() && j != qi ==> self.questions@[j] == old(
                        self,
                    ).questions@[j],
                oldq == old(self).questions_view()[qi as int],
                s == old(self).game_settings@,
                frame(old(self), self),
                self.teams == old(self).teams,
                same_question_header(self.questions_view()[qi as int], oldq),
                self.questions_view()[qi as int].answers.len() == oldq.answers.len(),
                i <= num_answers,
                num_answers == oldq.answers.len(),
                place as int == count_credited(oldq.answers, i as int),
                place <= i,
                forall|j: int|
                    i <= j < oldq.answers.len() ==> self.questions_view()[qi as int].answers[j]
                        == oldq.answers[j],
                forall|j: int|
                    0 <= j < i ==> self.questions_view()[qi as int].answers[j] == with_speed(
                        oldq,
                        s,
                    ).answers[j],
            decreases num_answers - i,
        {
            let credited = self.questions[qi].answers[i].score.question_points > 0;
            let enabled = self.questions[qi].speed_bonus_enabled;
            let n = self.game_settings.speed_bonus_num_teams;
            let first = self.game_settings.speed_bonus_first_place_points;
            let v: i32 = if enabled && credited && (place as u64) < (n as u64) {
                speed_amount(place as u64, n, first)
            } else {
                0
            };
            proof {
                assert(self.questions_view()[qi as int].answers[i as int] == oldq.answers[i as int]);
                assert(v as int == expected_speed_bonus(oldq, s, i as int));
            }
            self.questions[qi].answers[i].score.speed_bonus_points = v;
            if credited {
                place = place + 1;
            }
            i = i + 1;
            proof {
                assert(self.questions_view()[qi as int].answers[i - 1] =~= with_speed(
                    oldq,
                    s,
                ).answers[i - 1]);
            }
        }
        proof {
            assert(self.questions_view()[qi as int].answers =~= with_speed(oldq, s).answers);
            assert(self.questions_view()[qi as int] =~= with_speed(oldq, s));
        }
    }

    /// Recompute the derived totals of the team at index `t` from the
    /// current questions. Its override and display data are kept; nothing
    /// else changes.
    pub fn recalc_team_at(&mut self, t: usize)
        requires
            t < old(self).teams@.len(),
        ensures
            frame(old(self), final(self)),
            final(self).questions == old(self).questions,
            final(self).teams@.len() == old(self).teams@.len(),
            forall|j: int|
                0 <= j < old(self).teams@.len() && j != t ==> final(self).teams@[j] == old(
                    self,
                ).teams@[j],
            final(self).teams_view()[t as int] == ({
                let key = name_key(old(self).teams_view()[t as int].team_name);
                let tot = team_totals(old(self).questions_view(), key);
                TeamDataView {
                    score: ScoreData {
                        question_points: tot.question_points as i32,
                        bonus_points: tot.bonus_points as i32,
                        speed_bonus_points: tot.speed_bonus_points as i32,
                        override_points: old(self).teams_view()[t as int].score.override_points,
                    },
                    ..old(self).teams_view()[t as int]
                }
            }),
    {
        let ghost key = name_key(self.teams_view()[t as int].team_name);
        let mut qp: i32 = 0;
        let mut bp: i32 = 0;
        let mut sp: i32 = 0;
        let mut i: usize = 0;
        let num_questions: usize = self.questions.len();
        while i < num_questions
            invariant
                t < self.teams@.len(),
                self.teams == old(self).teams,
                self.questions == old(self).questions,
                frame(old(self), self),
                i <= num_questions,
                num_questions == self.questions@.len(),
                key == name_key(self.teams_view()[t as int].team_name),
                qp as int == team_totals(self.questions_view().take(i as int), key).question_points,
                bp as int == team_totals(self.questions_view().take(i as int), key).bonus_points,
                sp as int == team_totals(
                    self.questions_view().take(i as int),
                    key,
                ).speed_bonus_points,
            decreases num_questions - i,
        {
            let ghost pre = self.questions_view().take(i as int);
            let ghost cur = self.questions_view().take(i as int + 1);
            let found = self.questions[i].find_answer(self.teams[t].team_name.as_str());
            match found {
                Some(k) => {
                    qp = add_clamped(qp, self.questions[i].answers[k].score.question_points);
                    bp = add_clamped(bp, self.questions[i].answers[k].score.bonus_points);
                    sp = add_clamped(sp, self.questions[i].answers[k].score.speed_bonus_points);
                },
                None => {
                },
            }
            proof {
                assert(cur.drop_last() =~= pre);
                assert(cur.last() == self.questions_view()[i as int]);
            }
            i = i + 1;
        }
        proof {
            assert(self.questions_view().take(num_questions as int) =~= self.questions_view());
        }
        self.teams[t].score.question_points = qp;
        self.teams[t].score.bonus_points = bp;
        self.teams[t].score.speed_bonus_points = sp;
        proof {
            assert(final(self).teams_view()[t as int] =~= ({
                let tot = team_totals(old(self).questions_view(), key);
                TeamDataView {
                    score: ScoreData {
                        question_points: tot.question_points as i32,
                        bonus_points: tot.bonus_points as i32,
                        speed_bonus_points: tot.speed_bonus_points as i32,
                        override_points: old(self).teams_view()[t as int].score.override_points,
                    },
                    ..old(self).teams_view()[t as int]
                }
            }));
        }
    }

    /// Recompute every team's derived totals from the current questions.
    pub fn recalc_all_teams(&mut self)
        ensures
            frame(old(self), final(self)),
            final(self).questions == old(self).questions,
            final(self).teams_view() == with_totals(
                old(self).teams_view(),
                old(self).questions_view(),
            ),
    {
        let mut t: usize = 0;
        let num_teams: usize = self.teams.len();
        while t < num_teams
            invariant
                self.questions == old(self).questions,
                frame(old(self), self),
                num_teams == self.teams@.len(),
                self.teams@.len() == old(self).teams@.len(),
                t <= num_teams,
                forall|j: int| t <= j < num_teams ==> self.teams@[j] == old(self).teams@[j],
                forall|j: int|
                    0 <= j < t ==> self.teams_view()[j] == with_totals(
                        old(self).teams_view(),
                        old(self).questions_view(),
                    )[j],
            decreases num_teams - t,
        {
            let ghost pre = *self;
            self.recalc_team_at(t);
            proof {
                assert forall|j: int| 0 <= j < t implies self.teams_view()[j] == with_totals(
                    old(self).teams_view(),
                    old(self).questions_view(),
                )[j] by {
                    assert(self.teams@[j] == pre.teams@[j]);
                    assert(pre.teams_view()[j] == with_totals(
                        old(self).teams_view(),
                        old(self).questions_view(),
                    )[j]);
                }
                assert(self.teams_view()[t as int] =~= with_totals(
                    old(self).teams_view(),
                    old(self).questions_view(),
                )[t as int]);
            }
            t = t + 1;
        }
        proof {
            assert(self.teams_view() =~= with_totals(
                old(self).teams_view(),
                old(self).questions_view(),
            ));
        }
    }
}

/// The content a submission produces on a question of the given kind. Only
/// standard and multiple-choice questions accept submissions; the
/// multi-answer arm is never used.
pub open spec fn spec_new_content(kind: QuestionKind, text: Seq<char>) -> crate::types::AnswerContentView {
    match kind {
        QuestionKind::Standard => crate::types::AnswerContentView::Standard { answer_text: text },
        QuestionKind::MultipleChoice => crate::types::AnswerContentView::MultipleChoice {
            selected: text,
        },
        QuestionKind::MultiAnswer => crate::types::AnswerContentView::Standard {
            answer_text: text,
        },
    }
}

/// The index of the first answer whose content key equals `key` and whose
/// question points equal `qpoints` — the answer a new matching submission
/// inherits its score from — or `-1` when there is none. A `None` key never
/// matches.
pub open spec fn auto_match_index(
    answers: Seq<AnswerView>,
    key: Option<Seq<u8>>,
    qpoints: int,
) -> int
    decreases answers.len(),
{
    if key is None {
        -1
    } else if answers.len() == 0 {
        -1
    } else if crate::types::answer_content_key(answers[0]) == key && answers[0].score.question_points
        == qpoints {
        0
    } else {
        let rest = auto_match_index(answers.drop_first(), key, qpoints);
        if rest == -1 {
            -1
        } else {
            1 + rest
        }
    }
}

/// When some answer matches, `auto_match_index` returns the first match.
pub proof fn lemma_auto_match_found(
    answers: Seq<AnswerView>,
    key: Option<Seq<u8>>,
    qpoints: int,
    k: int,
)
    requires
        key is Some,
        0 <= k < answers.len(),
        crate::types::answer_content_key(answers[k]) == key,
        answers[k].score.question_points == qpoints,
        forall|j: int|
            0 <= j < k ==> !(crate::types::answer_content_key(#[trigger] answers[j]) == key
                && answers[j].score.question_points == qpoints),
    ensures
        auto_match_index(answers, key, qpoints) == k,
    decreases answers.len(),
{
    if k == 0 {
    } else {
        lemma_auto_match_found(answers.drop_first(), key, qpoints, k - 1);
    }
}

/// When no answer matches, `auto_match_index` returns `-1`.
pub proof fn lemma_auto_match_none(answers: Seq<AnswerView>, key: Option<Seq<u8>>, qpoints: int)
    requires
        forall|j: int|
            0 <= j < answers.len() ==> !(crate::types::answer_content_key(#[trigger] answers[j])
                == key && answers[j].score.question_points == qpoints),
    ensures
        auto_match_index(answers, key, qpoints) == -1,
    decreases answers.len(),
{
    if key is Some && answers.len() > 0 {
        lemma_auto_match_none(answers.drop_first(), key, qpoints);
    }
}

/// `q` with the score written to the answer at `k` and propagated to every
/// answer whose content key equals the target's: those answers' question
/// points and bonus points are set to `qp` and `bp`, their speed bonuses and
/// overrides kept; every other answer is untouched.
pub open spec fn propagated(q: QuestionView, k: int, qp: i32, bp: i32) -> QuestionView {
    QuestionView {
        answers: Seq::new(
            q.answers.len(),
            |j: int|
                if j == k || (crate::types::answer_content_key(q.answers[j]) is Some
                    && crate::types::answer_content_key(q.answers[j])
                    == crate::types::answer_content_key(q.answers[k])) {
                    AnswerView {
                        score: ScoreData {
                            question_points: qp,
                            bonus_points: bp,
                            ..q.answers[j].score
                        },
                        ..q.answers[j]
                    }
                } else {
                    q.answers[j]
                },
        ),
        ..q
    }
}

/// Counting credited answers is a function of the question points alone.
pub proof fn lemma_count_credited_congruence(a: Seq<AnswerView>, b: Seq<AnswerView>, i: int)
    requires
        forall|j: int| 0 <= j < i ==> a[j].score.question_points == b[j].score.question_points,
    ensures
        count_credited(a, i) == count_credited(b, i),
    decreases i,
{
    if i > 0 {
        lemma_count_credited_congruence(a, b, i - 1);
    }
}

/// Rewriting the speed bonuses of a question makes the speed-bonus
/// invariant hold on it, and touches nothing else.
pub proof fn lemma_with_speed_ok(q: QuestionView, s: SettingsView)
    ensures
        speed_ok(with_speed(q, s), s),
        with_speed(q, s).answers.len() == q.answers.len(),
        same_question_header(with_speed(q, s), q),
        forall|i: int|
            0 <= i < q.answers.len() ==> {
                let a = #[trigger] with_speed(q, s).answers[i];
                &&& a.team_name == q.answers[i].team_name
                &&& a.content == q.answers[i].content
                &&& a.question_kind == q.answers[i].question_kind
                &&& a.question_config == q.answers[i].question_config
                &&& a.score.question_points == q.answers[i].score.question_points
                &&& a.score.bonus_points == q.answers[i].score.bonus_points
                &&& a.score.override_points == q.answers[i].score.override_points
            },
{
    let w = with_speed(q, s);
    assert forall|i: int| 0 <= i < w.answers.len() implies w.answers[i].score.speed_bonus_points
        as int == expected_speed_bonus(w, s, i) by {
        lemma_count_credited_congruence(w.answers, q.answers, i);
        assert(expected_speed_bonus(w, s, i) == expected_speed_bonus(q, s, i));
        assert(i32::MIN <= expected_speed_bonus(q, s, i) <= i32::MAX);
    }
}

/// Every component of a team's totals lies in the `i32` range.
pub proof fn lemma_totals_in_range(questions: Seq<QuestionView>, name: Seq<u8>)
    ensures
        i32::MIN <= team_totals(questions, name).question_points <= i32::MAX,
        i32::MIN <= team_totals(questions, name).bonus_points <= i32::MAX,
        i32::MIN <= team_totals(questions, name).speed_bonus_points <= i32::MAX,
    decreases questions.len(),
{
    if questions.len() > 0 {
        lemma_totals_in_range(questions.drop_last(), name);
    }
}

/// Recomputing every team's totals makes the aggregate invariant hold and
/// preserves names, display data, overrides, and uniqueness.
pub proof fn lemma_with_totals_ok(teams: Seq<TeamDataView>, questions: Seq<QuestionView>)
    ensures
        with_totals(teams, questions).len() == teams.len(),
        forall|t: int|
            0 <= t < teams.len() ==> {
                let w = #[trigger] with_totals(teams, questions)[t];
                &&& w.team_name == teams[t].team_name
                &&& w.team_members == teams[t].team_members
                &&& w.team_color == teams[t].team_color
                &&& w.connected == teams[t].connected
                &&& w.score.override_points == teams[t].score.override_points
            },
        aggregates_ok(with_totals(teams, questions), questions),
        teams_unique(teams) ==> teams_unique(with_totals(teams, questions)),
{
    let w = with_totals(teams, questions);
    assert forall|t: int| 0 <= t < w.len() implies {
        let tot = team_totals(questions, name_key(#[trigger] w[t].team_name));
        &&& w[t].score.question_points as int == tot.question_points
        &&& w[t].score.bonus_points as int == tot.bonus_points
        &&& w[t].score.speed_bonus_points as int == tot.speed_bonus_points
    } by {
        lemma_totals_in_range(questions, name_key(teams[t].team_name));
    }
}

impl Game {
    /// Record a new answer from `team_name` on the current question. The
    /// submission is rejected when the team already answered this question
    /// or the question is of the unsupported multi-answer kind. An accepted
    /// answer starts from a zero score unless an existing answer on the
    /// question has the same content key and full question points, in which
    /// case the new answer inherits that answer's question points and bonus;
    /// speed bonuses and team totals are then recomputed.
    pub fn add_answer(&mut self, team_name: &str, answer_text: String) -> (r: bool)
        requires
            old(self).wf(),
        ensures
            final(self).wf(),
            ({
                let qi = old(self).current_question_number - 1;
                let oldq = old(self).questions_view()[qi as int];
                let dup = answer_index(oldq.answers, name_key(team_name@)) >= 0;
                let multi = oldq.question_kind == QuestionKind::MultiAnswer;
                &&& r == (!dup && !multi)
                &&& !r ==> *final(self) == *old(self)
                &&& r ==> ({
                    let content = spec_new_content(oldq.question_kind, answer_text@);
                    let m = auto_match_index(
                        oldq.answers,
                        crate::types::content_key(content),
                        oldq.question_points as int,
                    );
                    let inherited = if m >= 0 {
                        ScoreData {
                            question_points: oldq.answers[m].score.question_points,
                            bonus_points: oldq.answers[m].score.bonus_points,
                            speed_bonus_points: 0,
                            override_points: 0,
                        }
                    } else {
                        ScoreData {
                            question_points: 0,
                            bonus_points: 0,
                            speed_bonus_points: 0,
                            override_points: 0,
                        }
                    };
                    let appended = QuestionView {
                        answers: oldq.answers.push(
                            AnswerView {
                                team_name: team_name@,
                                score: inherited,
                                content: Some(content),
                                question_kind: oldq.question_kind,
                                question_config: oldq.question_config,
                            },
                        ),
                        ..oldq
                    };
                    &&& final(self).questions_view() == old(self).questions_view().update(
                        qi as int,
                        with_speed(appended, old(self).game_settings@),
                    )
                    &&& final(self).teams_view() == with_totals(
                        old(self).teams_view(),
                        final(self).questions_view(),
                    )
                    &&& frame(old(self), final(self))
                })
            }),
    {
        let qi: usize = self.current_question_number - 1;
        let ghost oldq: QuestionView = self.questions_view()[qi as int];
        let kind = self.questions[qi].question_kind;
        if kind == QuestionKind::MultiAnswer {
            return false;
        }
        let dup = self.questions[qi].find_answer(team_name);
        if dup.is_some() {
            return false;
        }
        // Auto-scoring: look for the first fully-credited answer with the
        // same content key.
        let ghost key: Option<Seq<u8>> = Some(crate::norm::answer_key(answer_text@));
        let full_points = self.questions[qi].question_points;
        let mut m: Option<usize> = None;
        let mut j: usize = 0;
        let num_answers = self.questions[qi].answers.len();
        while j < num_answers && m.is_none()
            invariant
                old(self).wf(),
                *self == *old(self),
                qi < self.questions@.len(),
                oldq == self.questions_view()[qi as int],
                num_answers == oldq.answers.len(),
                j <= num_answers,
                full_points == oldq.question_points,
                key == Some(crate::norm::answer_key(answer_text@)),
                match m {
                    Some(k) => {
                        &&& 0 <= k < j
                        &&& crate::types::answer_content_key(oldq.answers[k as int]) == key
                        &&& oldq.answers[k as int].score.question_points
                            == oldq.question_points as int
                        &&& forall|x: int|
                            0 <= x < k ==> !(crate::types::answer_content_key(
                                #[trigger] oldq.answers[x],
                            ) == key && oldq.answers[x].score.question_points
                                == oldq.question_points as int)
                    },
                    None => forall|x: int|
                        0 <= x < j ==> !(crate::types::answer_content_key(
                            #[trigger] oldq.answers[x],
                        ) == key && oldq.answers[x].score.question_points
                            == oldq.question_points as int),
                },
            decreases num_answers - j,
        {
            let matches_key = match &self.questions[qi].answers[j].content {
                Some(AnswerContent::Standard { answer_text: t }) => crate::norm::keys_equal(
                    t.as_str(),
                    answer_text.as_str(),
                ),
                Some(AnswerContent::MultipleChoice { selected }) => crate::norm::keys_equal(
                    selected.as_str(),
                    answer_text.as_str(),
                ),
                _ => false,
            };
            let fully_credited = (self.questions[qi].answers[j].score.question_points as i64)
                == (full_points as i64);
            if matches_key && fully_credited {
                m = Some(j);
            }
            j = j + 1;
        }
        let score = match m {
            Some(k) => {
                proof {
                    lemma_auto_match_found(
                        oldq.answers,
                        key,
                        oldq.question_points as int,
                        k as int,
                    );
                }
                ScoreData {
                    question_points: self.questions[qi].answers[k].score.question_points,
                    bonus_points: self.questions[qi].answers[k].score.bonus_points,
                    speed_bonus_points: 0,
                    override_points: 0,
                }
            },
            None => {
                proof {
                    lemma_auto_match_none(oldq.answers, key, oldq.question_points as int);
                }
                ScoreData::new()
            },
        };
        let content = if kind == QuestionKind::MultipleChoice {
            AnswerContent::MultipleChoice { selected: answer_text }
        } else {
            AnswerContent::Standard { answer_text }
        };
        let config = self.questions[qi].question_config.clone();
        let new_answer = TeamQuestionResult {
            team_name: team_name.to_owned(),
            score,
            content: Some(content),
            question_kind: kind,
            question_config: config,
        };
        let ghost appended = QuestionView {
            answers: oldq.answers.push(new_answer@),
            ..oldq
        };
        self.questions[qi].answers.push(new_answer);
        proof {
            assert(self.questions_view()[qi as int].answers =~= appended.answers);
            assert(self.questions_view()[qi as int] =~= appended);
        }
        self.recompute_speed_bonus(qi);
        self.recalc_all_teams();
        proof {
            let s = old(self).game_settings@;
            assert(self.questions_view() =~= old(self).questions_view().update(
                qi as int,
                with_speed(appended, s),
            ));
            assert(question_ok(old(self).questions_view()[qi as int]));
            assert(appended.answers.last() == new_answer@);
            lemma_add_answer_wf(*old(self), *self, qi as int, appended, team_name@);
        }
        true
    }
}

impl Game {
    /// Write `score`'s question points and bonus points to the named team's
    /// answer on the given question (1-based), keeping the answer's derived
    /// speed bonus. The same two components are then propagated to every
    /// other answer on that question whose content key equals the target's,
    /// after which speed bonuses and team totals are recomputed. Returns
    /// false, changing nothing, when the question or the answer does not
    /// exist.
    pub fn score_answer(&mut self, question_number: usize, team_name: &str, score: ScoreData) -> (r:
        bool)
        requires
            old(self).wf(),
        ensures
            final(self).wf(),
            ({
                let valid = 1 <= question_number <= old(self).questions_view().len();
                &&& !valid ==> !r && *final(self) == *old(self)
                &&& valid ==> ({
                    let qi = question_number - 1;
                    let oldq = old(self).questions_view()[qi as int];
                    let k = answer_index(oldq.answers, name_key(team_name@));
                    &&& r == (k >= 0)
                    &&& !r ==> *final(self) == *old(self)
                    &&& r ==> ({
                        &&& final(self).questions_view() == old(self).questions_view().update(
                            qi as int,
                            with_speed(
                                propagated(oldq, k, score.question_points, score.bonus_points),
                                old(self).game_settings@,
                            ),
                        )
                        &&& final(self).teams_view() == with_totals(
                            old(self).teams_view(),
                            final(self).questions_view(),
                        )
                        &&& frame(old(self), final(self))
                    })
                })
            }),
    {
        if question_number < 1 || question_number > self.questions.len() {
            return false;
        }
        let qi: usize = question_number - 1;
        let found = self.questions[qi].find_answer(team_name);
        let k: usize = match found {
            Some(k) => k,
            None => {
                return false;
            },
        };
        let ghost oldq: QuestionView = self.questions_view()[qi as int];
        let ghost kk: int = k as int;
        // Remember the target's content text; propagation compares against
        // its key.
        let target_text: Option<String> = match &self.questions[qi].answers[k].content {
            Some(AnswerContent::Standard { answer_text }) => Some(answer_text.clone()),
            Some(AnswerContent::MultipleChoice { selected }) => Some(selected.clone()),
            _ => None,
        };
        proof {
            match &target_text {
                Some(t) => {
                    assert(crate::types::answer_content_key(oldq.answers[kk]) == Some(
                        crate::norm::answer_key(t@),
                    ));
                },
                None => {
                    assert(crate::types::answer_content_key(oldq.answers[kk]) is None);
                },
            }
        }
        self.questions[qi].answers[k].score.question_points = score.question_points;
        self.questions[qi].answers[k].score.bonus_points = score.bonus_points;
        let ghost prop: QuestionView = propagated(
            oldq,
            kk,
            score.question_points,
            score.bonus_points,
        );
        proof {
            assert(self.questions_view()[qi as int].answers[kk] =~= prop.answers[kk]);
        }
        let num_answers: usize = self.questions[qi].answers.len();
        let mut j: usize = 0;
        while j < num_answers
            invariant
                qi < self.questions@.len(),
                self.questions@.len() == old(self).questions@.len(),
                forall|x: int|
                    0 <= x < self.questions@.len() && x != qi ==> self.questions@[x] == old(
                        self,
                    ).questions@[x],
                frame(old(self), self),
                self.teams == old(self).teams,
                oldq == old(self).questions_view()[qi as int],
                prop == propagated(oldq, kk, score.question_points, score.bonus_points),
                kk == k as int,
                0 <= kk < oldq.answers.len(),
                num_answers == oldq.answers.len(),
                j <= num_answers,
                same_question_header(self.questions_view()[qi as int], oldq),
                self.questions_view()[qi as int].answers.len() == oldq.answers.len(),
                match target_text {
                    Some(t) => crate::types::answer_content_key(oldq.answers[kk]) == Some(
                        crate::norm::answer_key(t@),
                    ),
                    None => crate::types::answer_content_key(oldq.answers[kk]) is None,
                },
                self.questions_view()[qi as int].answers[kk] == prop.answers[kk],
                forall|x: int|
                    0 <= x < j && x != kk ==> self.questions_view()[qi as int].answers[x]
                        == prop.answers[x],
                forall|x: int|
                    j <= x < num_answers && x != kk ==> self.questions_view()[qi as int].answers[x]
                        == oldq.answers[x],
            decreases num_answers - j,
        {
            if j != k {
                let matches_key = match (&target_text, &self.questions[qi].answers[j].content) {
                    (Some(t), Some(AnswerContent::Standard { answer_text })) =>
                        crate::norm::keys_equal(answer_text.as_str(), t.as_str()),
                    (Some(t), Some(AnswerContent::MultipleChoice { selected })) =>
                        crate::norm::keys_equal(selected.as_str(), t.as_str()),
                    _ => false,
                };
                proof {
                    assert(matches_key == (crate::types::answer_content_key(oldq.answers[j as int])
                        is Some && crate::types::answer_content_key(oldq.answers[j as int])
                        == crate::types::answer_content_key(oldq.answers[kk])));
                }
                if matches_key {
                    self.questions[qi].answers[j].score.question_points = score.question_points;
                    self.questions[qi].answers[j].score.bonus_points = score.bonus_points;
                }
                proof {
                    assert(self.questions_view()[qi as int].answers[j as int] =~= prop.answers[
                        j as int]);
                }
            }
            j = j + 1;
        }
        proof {
            assert(self.questions_view()[qi as int].answers =~= prop.answers);
            assert(self.questions_view()[qi as int] =~= prop);
        }
        self.recompute_speed_bonus(qi);
        self.recalc_all_teams();
        proof {
            let s = old(self).game_settings@;
            assert(self.questions_view() =~= old(self).questions_view().update(
                qi as int,
                with_speed(prop, s),
            ));
            assert(question_ok(old(self).questions_view()[qi as int]));
            lemma_score_answer_wf(
                *old(self),
                *self,
                qi as int,
                kk,
                score.question_points,
                score.bonus_points,
            );
        }
        true
    }

    /// Clear the named team's answer score on the given question: the same
    /// write-and-propagate as `score_answer` with a zero score.
    pub fn clear_answer_score(&mut self, question_number: usize, team_name: &str) -> (r: bool)
        requires
            old(self).wf(),
        ensures
            final(self).wf(),
            ({
                let valid = 1 <= question_number <= old(self).questions_view().len();
                &&& !valid ==> !r && *final(self) == *old(self)
                &&& valid ==> ({
                    let qi = question_number - 1;
                    let oldq = old(self).questions_view()[qi as int];
                    let k = answer_index(oldq.answers, name_key(team_name@));
                    &&& r == (k >= 0)
                    &&& !r ==> *final(self) == *old(self)
                    &&& r ==> ({
                        &&& final(self).questions_view() == old(self).questions_view().update(
                            qi as int,
                            with_speed(propagated(oldq, k, 0, 0), old(self).game_settings@),
                        )
                        &&& final(self).teams_view() == with_totals(
                            old(self).teams_view(),
                            final(self).questions_view(),
                        )
                        &&& frame(old(self), final(self))
                    })
                })
            }),
    {
        self.score_answer(question_number, team_name, ScoreData::new())
    }
}

/// The question a fresh slot is populated with: the game settings' defaults
/// and no answers.
pub open spec fn spec_question_from_settings(s: SettingsView) -> QuestionView {
    QuestionView {
        timer_duration: s.default_timer_duration,
        question_points: s.default_question_points,
        bonus_increment: s.default_bonus_increment,
        speed_bonus_enabled: s.speed_bonus_enabled,
        question_kind: s.default_question_type,
        question_config: crate::types::spec_default_config(
            s.default_question_type,
            s.default_mc_config,
        ),
        answers: Seq::empty(),
    }
}

/// Appending a question with no answers leaves every team's totals alone.
pub proof fn lemma_totals_push_empty(questions: Seq<QuestionView>, q: QuestionView, name: Seq<u8>)
    requires
        q.answers.len() == 0,
    ensures
        team_totals(questions.push(q), name) == team_totals(questions, name),
{
    crate::types::lemma_answer_index_none(q.answers, name);
    lemma_totals_in_range(questions, name);
    assert(questions.push(q).drop_last() =~= questions);
    assert(questions.push(q).last() == q);
}

/// Totals depend only on the answers of each question.
pub proof fn lemma_totals_congruence(a: Seq<QuestionView>, b: Seq<QuestionView>, name: Seq<u8>)
    requires
        a.len() == b.len(),
        forall|i: int| 0 <= i < a.len() ==> a[i].answers == b[i].answers,
    ensures
        team_totals(a, name) == team_totals(b, name),
    decreases a.len(),
{
    if a.len() > 0 {
        assert(a.drop_last().len() == b.drop_last().len());
        lemma_totals_congruence(a.drop_last(), b.drop_last(), name);
        assert(a.last().answers == b.last().answers);
    }
}

/// The outcome of one second elapsing on a running timer.
#[derive(Debug, Clone, Copy, PartialEq, Eq, Structural)]
pub enum TickOutcome {
    /// The timer was not running; nothing happened.
    Stopped,
    /// The countdown continues with this many seconds left.
    Tick(u32),
    /// The countdown reached zero: the timer stopped and submissions closed.
    Expired,
}

impl Game {
    /// Register a team. A team whose name is already present
    /// (case-insensitive) is treated as reconnecting: its colour and member
    /// list are refreshed and it is marked connected, keeping its name and
    /// score. Otherwise the team is appended with derived totals computed
    /// from the current questions and a zero override.
    pub fn add_team(&mut self, team_name: String, team_color: crate::types::TeamColor, team_members: Vec<String>)
        requires
            old(self).wf(),
        ensures
            final(self).wf(),
            equal_but_teams(old(self), final(self)),
            ({
                let k = team_index(old(self).teams_view(), name_key(team_name@));
                if k >= 0 {
                    final(self).teams_view() == old(self).teams_view().update(
                        k,
                        TeamDataView {
                            team_members: team_members.deep_view(),
                            team_color: team_color@,
                            connected: true,
                            ..old(self).teams_view()[k]
                        },
                    )
                } else {
                    final(self).teams_view() == old(self).teams_view().push(
                        TeamDataView {
                            team_name: team_name@,
                            team_members: team_members.deep_view(),
                            team_color: team_color@,
                            score: ScoreData {
                                question_points: team_totals(
                                    old(self).questions_view(),
                                    name_key(team_name@),
                                ).question_points as i32,
                                bonus_points: team_totals(
                                    old(self).questions_view(),
                                    name_key(team_name@),
                                ).bonus_points as i32,
                                speed_bonus_points: team_totals(
                                    old(self).questions_view(),
                                    name_key(team_name@),
                                ).speed_bonus_points as i32,
                                override_points: 0,
                            },
                            connected: true,
                        },
                    )
                }
            }),
    {
        let found = self.find_team(team_name.as_str());
        match found {
            Some(k) => {
                proof {
                    crate::types::lemma_team_index_props(
                        old(self).teams_view(),
                        name_key(team_name@),
                    );
                }
                self.teams[k].connected = true;
                self.teams[k].team_members = team_members;
                self.teams[k].team_color = team_color;
                proof {
                    assert(final(self).teams_view() =~= old(self).teams_view().update(
                        k as int,
                        TeamDataView {
                            team_members: final(self).teams_view()[k as int].team_members,
                            team_color: final(self).teams_view()[k as int].team_color,
                            connected: true,
                            ..old(self).teams_view()[k as int]
                        },
                    ));
                    lemma_totals_unchanged(old(self), self);
                }
            },
            None => {
                self.teams.push(
                    TeamData {
                        team_name,
                        team_members,
                        team_color,
                        score: ScoreData::new(),
                        connected: true,
                    },
                );
                let t = self.teams.len() - 1;
                let ghost mid = *self;
                self.recalc_team_at(t);
                proof {
                    let key = name_key(mid.teams_view()[t as int].team_name);
                    lemma_totals_in_range(old(self).questions_view(), key);
                    assert(self.teams_view()[t as int] =~= old(self).teams_view().push(
                        TeamDataView {
                            team_name: mid.teams_view()[t as int].team_name,
                            team_members: mid.teams_view()[t as int].team_members,
                            team_color: mid.teams_view()[t as int].team_color,
                            score: ScoreData {
                                question_points: team_totals(
                                    old(self).questions_view(),
                                    key,
                                ).question_points as i32,
                                bonus_points: team_totals(
                                    old(self).questions_view(),
                                    key,
                                ).bonus_points as i32,
                                speed_bonus_points: team_totals(
                                    old(self).questions_view(),
                                    key,
                                ).speed_bonus_points as i32,
                                override_points: 0,
                            },
                            connected: true,
                        },
                    )[t as int]);
                    assert(self.teams_view() =~= old(self).teams_view().push(
                        self.teams_view()[t as int],
                    ));
                    crate::types::lemma_team_index_props(
                        old(self).teams_view(),
                        name_key(self.teams_view()[t as int].team_name),
                    );
                    assert(teams_unique(self.teams_view()));
                    assert(aggregates_ok(self.teams_view(), self.questions_view()));
                }
            },
        }
    }

    /// Mark an existing team connected again. Returns false when no team of
    /// that name exists.
    pub fn rejoin_team(&mut self, team_name: &str) -> (r: bool)
        requires
            old(self).wf(),
        ensures
            final(self).wf(),
            ({
                let k = team_index(old(self).teams_view(), name_key(team_name@));
                &&& r == (k >= 0)
                &&& if k >= 0 {
                    &&& final(self).teams_view() == old(self).teams_view().update(
                        k,
                        TeamDataView { connected: true, ..old(self).teams_view()[k] },
                    )
                    &&& equal_but_teams(old(self), final(self))
                } else {
                    *final(self) == *old(self)
                }
            }),
    {
        self.set_team_connected(team_name, true)
    }

    /// Write a team's manual score override. Returns false when no team of
    /// that name exists. Derived totals are untouched.
    pub fn override_team_score(&mut self, team_name: &str, override_points: i32) -> (r: bool)
        requires
            old(self).wf(),
        ensures
            final(self).wf(),
            ({
                let k = team_index(old(self).teams_view(), name_key(team_name@));
                &&& r == (k >= 0)
                &&& if k >= 0 {
                    &&& final(self).teams_view() == old(self).teams_view().update(
                        k,
                        TeamDataView {
                            score: ScoreData {
                                override_points,
                                ..old(self).teams_view()[k].score
                            },
                            ..old(self).teams_view()[k]
                        },
                    )
                    &&& equal_but_teams(old(self), final(self))
                } else {
                    *final(self) == *old(self)
                }
            }),
    {
        let found = self.find_team(team_name);
        match found {
            Some(k) => {
                proof {
                    crate::types::lemma_team_index_props(
                        old(self).teams_view(),
                        name_key(team_name@),
                    );
                }
                self.teams[k].score.override_points = override_points;
                proof {
                    assert(final(self).teams_view() =~= old(self).teams_view().update(
                        k as int,
                        TeamDataView {
                            score: ScoreData {
                                override_points,
                                ..old(self).teams_view()[k as int].score
                            },
                            ..old(self).teams_view()[k as int]
                        },
                    ));
                    lemma_totals_unchanged(old(self), self);
                }
                true
            },
            None => false,
        }
    }

    /// A question populated from the game settings' defaults, with no
    /// answers.
    fn question_from_settings(&self) -> (q: Question)
        ensures
            q@ == spec_question_from_settings(self.game_settings@),
    {
        let q = Question {
            timer_duration: self.game_settings.default_timer_duration,
            question_points: self.game_settings.default_question_points,
            bonus_increment: self.game_settings.default_bonus_increment,
            speed_bonus_enabled: self.game_settings.speed_bonus_enabled,
            question_kind: self.game_settings.default_question_type,
            question_config: QuestionConfig::default_for(
                self.game_settings.default_question_type,
                &self.game_settings.default_mc_config,
            ),
            answers: Vec::new(),
        };
        proof {
            assert(q@.answers =~= Seq::<AnswerView>::empty());
            assert(q@ =~= spec_question_from_settings(self.game_settings@));
        }
        q
    }

    /// Move to the next question, stopping the timer first. When the game is
    /// on its last question a new one is appended, populated from the game
    /// settings. The countdown is reset to the new current question's
    /// duration.
    pub fn next_question(&mut self)
        requires
            old(self).wf(),
        ensures
            final(self).wf(),
            !final(self).timer_running,
            !final(self).timer_task_present,
            final(self).current_question_number == old(self).current_question_number + 1,
            ({
                if old(self).current_question_number == old(self).questions_view().len() {
                    final(self).questions_view() == old(self).questions_view().push(
                        spec_question_from_settings(old(self).game_settings@),
                    )
                } else {
                    final(self).questions == old(self).questions
                }
            }),
            final(self).timer_seconds_remaining == Some(
                final(self).questions_view()[final(self).current_question_number - 1].timer_duration,
            ),
            final(self).teams == old(self).teams,
            final(self).game_code == old(self).game_code,
            final(self).host_user_id == old(self).host_user_id,
            final(self).host_attached == old(self).host_attached,
            final(self).game_settings == old(self).game_settings,
    {
        self.timer_running = false;
        self.timer_task_present = false;
        if self.current_question_number == self.questions.len() {
            let q = self.question_from_settings();
            self.questions.push(q);
            proof {
                assert(self.questions_view() =~= old(self).questions_view().push(
                    spec_question_from_settings(old(self).game_settings@),
                ));
            }
        }
        proof {
            vstd::std_specs::vec::axiom_spec_len(&self.questions);
        }
        self.current_question_number = self.current_question_number + 1;
        self.timer_seconds_remaining = Some(
            self.questions[self.current_question_number - 1].timer_duration,
        );
        proof {
            if old(self).current_question_number == old(self).questions_view().len() {
                assert forall|t: int| 0 <= t < self.teams_view().len() implies {
                    let tot = team_totals(
                        self.questions_view(),
                        name_key(#[trigger] self.teams_view()[t].team_name),
                    );
                    &&& self.teams_view()[t].score.question_points as int == tot.question_points
                    &&& self.teams_view()[t].score.bonus_points as int == tot.bonus_points
                    &&& self.teams_view()[t].score.speed_bonus_points as int
                        == tot.speed_bonus_points
                } by {
                    lemma_totals_push_empty(
                        old(self).questions_view(),
                        spec_question_from_settings(old(self).game_settings@),
                        name_key(self.teams_view()[t].team_name),
                    );
                }
            }
        }
    }

    /// Move to the previous question, stopping the timer first; fails when
    /// already on the first question. The countdown is reset to the new
    /// current question's duration.
    pub fn prev_question(&mut self) -> (r: Result<(), &'static str>)
        requires
            old(self).wf(),
        ensures
            final(self).wf(),
            old(self).current_question_number <= 1 ==> ({
                &&& r matches Err(m) && m@ == "Already at first question"@
                &&& *final(self) == *old(self)
            }),
            old(self).current_question_number > 1 ==> ({
                &&& r is Ok
                &&& !final(self).timer_running
                &&& !final(self).timer_task_present
                &&& final(self).current_question_number == old(self).current_question_number - 1
                &&& final(self).questions == old(self).questions
                &&& final(self).teams == old(self).teams
                &&& final(self).timer_seconds_remaining == Some(
                    final(self).questions_view()[final(self).current_question_number - 1].timer_duration,
                )
                &&& final(self).game_code == old(self).game_code
                &&& final(self).host_user_id == old(self).host_user_id
                &&& final(self).host_attached == old(self).host_attached
                &&& final(self).game_settings == old(self).game_settings
            }),
    {
        if self.current_question_number <= 1 {
            return Err("Already at first question");
        }
        self.timer_running = false;
        self.timer_task_present = false;
        self.current_question_number = self.current_question_number - 1;
        self.timer_seconds_remaining = Some(
            self.questions[self.current_question_number - 1].timer_duration,
        );
        Ok(())
    }

    /// Start (or restart) the countdown, opening submissions. A countdown
    /// that is absent or at zero is first reset to the current question's
    /// duration. Returns whether a tick task should run; when the duration
    /// itself is zero there is nothing to count down and the timer stays
    /// stopped.
    pub fn start_timer(&mut self) -> (spawn: bool)
        requires
            old(self).wf(),
        ensures
            final(self).wf(),
            ({
                let dur = old(self).questions_view()[old(self).current_question_number - 1].timer_duration;
                let base = match old(self).timer_seconds_remaining {
                    None => dur,
                    Some(n) => if n == 0 {
                        dur
                    } else {
                        n
                    },
                };
                &&& final(self).timer_seconds_remaining == Some(base)
                &&& spawn == (base > 0)
                &&& final(self).timer_running == (base > 0)
                &&& final(self).timer_task_present == (base > 0)
            }),
            final(self).questions == old(self).questions,
            final(self).teams == old(self).teams,
            final(self).current_question_number == old(self).current_question_number,
            final(self).game_code == old(self).game_code,
            final(self).host_user_id == old(self).host_user_id,
            final(self).host_attached == old(self).host_attached,
            final(self).game_settings == old(self).game_settings,
    {
        let base: u32 = match self.timer_seconds_remaining {
            None => self.questions[self.current_question_number - 1].timer_duration,
            Some(n) => if n == 0 {
                self.questions[self.current_question_number - 1].timer_duration
            } else {
                n
            },
        };
        self.timer_seconds_remaining = Some(base);
        if base > 0 {
            self.timer_running = true;
            self.timer_task_present = true;
            true
        } else {
            self.timer_running = false;
            self.timer_task_present = false;
            false
        }
    }

    /// Stop the countdown, closing submissions; the seconds remaining are
    /// kept.
    pub fn pause_timer(&mut self)
        requires
            old(self).wf(),
        ensures
            final(self).wf(),
            *final(self) == (Game {
                timer_running: false,
                timer_task_present: false,
                ..*old(self)
            }),
    {
        self.timer_running = false;
        self.timer_task_present = false;
    }

    /// Stop the countdown and reset it to the current question's duration.
    pub fn reset_timer(&mut self)
        requires
            old(self).wf(),
        ensures
            final(self).wf(),
            *final(self) == (Game {
                timer_running: false,
                timer_task_present: false,
                timer_seconds_remaining: Some(
                    old(self).questions_view()[old(self).current_question_number - 1].timer_duration,
                ),
                ..*old(self)
            }),
    {
        let dur = self.questions[self.current_question_number - 1].timer_duration;
        self.timer_running = false;
        self.timer_task_present = false;
        self.timer_seconds_remaining = Some(dur);
    }

    /// One second elapses on the countdown. On a stopped timer nothing
    /// happens. Otherwise the countdown decrements; reaching zero stops the
    /// timer, ends the tick task, and closes submissions.
    pub fn tick(&mut self) -> (r: TickOutcome)
        requires
            old(self).wf(),
        ensures
            final(self).wf(),
            !old(self).timer_running ==> r == TickOutcome::Stopped && *final(self) == *old(self),
            old(self).timer_running ==> ({
                let n = old(self).timer_seconds_remaining->Some_0;
                if n == 1 {
                    &&& r == TickOutcome::Expired
                    &&& *final(self) == (Game {
                        timer_running: false,
                        timer_task_present: false,
                        timer_seconds_remaining: Some(0u32),
                        ..*old(self)
                    })
                } else {
                    &&& r == TickOutcome::Tick((n - 1) as u32)
                    &&& *final(self) == (Game {
                        timer_seconds_remaining: Some((n - 1) as u32),
                        ..*old(self)
                    })
                }
            }),
    {
        if !self.timer_running {
            return TickOutcome::Stopped;
        }
        let n: u32 = match self.timer_seconds_remaining {
            Some(n) => n,
            None => {
                return TickOutcome::Stopped;
            },
        };
        if n <= 1 {
            self.timer_running = false;
            self.timer_task_present = false;
            self.timer_seconds_remaining = Some(0);
            TickOutcome::Expired
        } else {
            self.timer_seconds_remaining = Some(n - 1);
            TickOutcome::Tick(n - 1)
        }
    }
}

/// `q` with the settings' per-question defaults applied, when it has no
/// answers yet; an answered question is left alone.
pub open spec fn spec_settings_applied(q: QuestionView, s: SettingsView) -> QuestionView {
    if q.answers.len() > 0 {
        q
    } else {
        QuestionView {
            timer_duration: s.default_timer_duration,
            question_points: s.default_question_points,
            bonus_increment: s.default_bonus_increment,
            speed_bonus_enabled: s.speed_bonus_enabled,
            question_kind: s.default_question_type,
            question_config: crate::types::spec_default_config(
                s.default_question_type,
                s.default_mc_config,
            ),
            answers: q.answers,
        }
    }
}

impl Game {
    /// Replace the game settings. Every question that has no answers yet
    /// takes the new per-question defaults, including its kind and
    /// configuration. When the current question is unanswered and the timer
    /// is stopped, the countdown is reset to the new default duration. Speed
    /// bonuses and team totals are recomputed under the new settings.
    pub fn update_game_settings(&mut self, settings: GameSettings)
        requires
            old(self).wf(),
        ensures
            final(self).wf(),
            final(self).game_settings == settings,
            final(self).questions_view().len() == old(self).questions_view().len(),
            forall|i: int|
                0 <= i < old(self).questions_view().len() ==> final(self).questions_view()[i]
                    == with_speed(
                    spec_settings_applied(#[trigger] old(self).questions_view()[i], settings@),
                    settings@,
                ),
            final(self).teams_view() == with_totals(
                old(self).teams_view(),
                final(self).questions_view(),
            ),
            final(self).timer_seconds_remaining == ({
                let cur = old(self).questions_view()[old(self).current_question_number - 1];
                if cur.answers.len() == 0 && !old(self).timer_running {
                    Some(settings@.default_timer_duration)
                } else {
                    old(self).timer_seconds_remaining
                }
            }),
            final(self).timer_running == old(self).timer_running,
            final(self).timer_task_present == old(self).timer_task_present,
            final(self).current_question_number == old(self).current_question_number,
            final(self).game_code == old(self).game_code,
            final(self).host_user_id == old(self).host_user_id,
            final(self).host_attached == old(self).host_attached,
    {
        let ghost sval: GameSettings = settings;
        let ghost sv: SettingsView = settings@;
        self.game_settings = settings;
        let num_questions = self.questions.len();
        let mut i: usize = 0;
        while i < num_questions
            invariant
                num_questions == self.questions@.len(),
                self.questions@.len() == old(self).questions@.len(),
                i <= num_questions,
                self.game_settings == sval,
                self.game_settings@ == sv,
                self.teams == old(self).teams,
                self.game_code == old(self).game_code,
                self.host_user_id == old(self).host_user_id,
                self.host_attached == old(self).host_attached,
                self.current_question_number == old(self).current_question_number,
                self.timer_running == old(self).timer_running,
                self.timer_seconds_remaining == old(self).timer_seconds_remaining,
                self.timer_task_present == old(self).timer_task_present,
                forall|x: int|
                    i <= x < num_questions ==> self.questions@[x] == old(self).questions@[x],
                forall|x: int|
                    0 <= x < i ==> self.questions_view()[x] == spec_settings_applied(
                        #[trigger] old(self).questions_view()[x],
                        self.game_settings@,
                    ),
            decreases num_questions - i,
        {
            if self.questions[i].answers.len() == 0 {
                self.questions[i].timer_duration = self.game_settings.default_timer_duration;
                self.questions[i].question_points = self.game_settings.default_question_points;
                self.questions[i].bonus_increment = self.game_settings.default_bonus_increment;
                self.questions[i].speed_bonus_enabled = self.game_settings.speed_bonus_enabled;
                self.questions[i].question_kind = self.game_settings.default_question_type;
                let config = QuestionConfig::default_for(
                    self.game_settings.default_question_type,
                    &self.game_settings.default_mc_config,
                );
                self.questions[i].question_config = config;
                proof {
                    assert(self.questions_view()[i as int] =~= spec_settings_applied(
                        old(self).questions_view()[i as int],
                        self.game_settings@,
                    ));
                }
            }
            i = i + 1;
        }
        // The countdown display follows the new default when the current
        // question is untouched and the timer is stopped.
        let cur_idx = self.current_question_number - 1;
        if self.questions[cur_idx].answers.len() == 0 && !self.timer_running {
            self.timer_seconds_remaining = Some(self.game_settings.default_timer_duration);
        }
        // Speed bonuses depend on the settings; recompute them everywhere,
        // then the team totals.
        let ghost applied: Seq<QuestionView> = self.questions_view();
        let ghost secs: Option<u32> = self.timer_seconds_remaining;
        let mut j: usize = 0;
        while j < num_questions
            invariant
                num_questions == self.questions@.len(),
                j <= num_questions,
                applied.len() == num_questions,
                self.game_settings == sval,
                self.game_settings@ == sv,
                self.teams == old(self).teams,
                self.game_code == old(self).game_code,
                self.host_user_id == old(self).host_user_id,
                self.host_attached == old(self).host_attached,
                self.current_question_number == old(self).current_question_number,
                self.timer_running == old(self).timer_running,
                self.timer_task_present == old(self).timer_task_present,
                self.timer_seconds_remaining == secs,
                secs == ({
                    let cur = old(self).questions_view()[old(self).current_question_number - 1];
                    if cur.answers.len() == 0 && !old(self).timer_running {
                        Some(sv.default_timer_duration)
                    } else {
                        old(self).timer_seconds_remaining
                    }
                }),
                forall|x: int| j <= x < num_questions ==> self.questions_view()[x] == applied[x],
                forall|x: int|
                    0 <= x < j ==> self.questions_view()[x] == with_speed(
                        #[trigger] applied[x],
                        self.game_settings@,
                    ),
            decreases num_questions - j,
        {
            let ghost pre = *self;
            self.recompute_speed_bonus(j);
            proof {
                assert forall|x: int|
                    0 <= x < j implies self.questions_view()[x] == with_speed(
                    #[trigger] applied[x],
                    self.game_settings@,
                ) by {
                    assert(self.questions@[x] == pre.questions@[x]);
                }
            }
            j = j + 1;
        }
        self.recalc_all_teams();
        proof {
            lemma_update_settings_wf(*old(self), *self, applied, settings@);
        }
    }
}

/// Helper for `update_game_settings`: the applied-then-recomputed state is
/// well-formed.
proof fn lemma_update_settings_wf(
    pre: Game,
    post: Game,
    applied: Seq<QuestionView>,
    s: SettingsView,
)
    requires
        pre.wf(),
        post.game_settings@ == s,
        applied.len() == pre.questions_view().len(),
        forall|i: int|
            0 <= i < applied.len() ==> applied[i] == spec_settings_applied(
                #[trigger] pre.questions_view()[i],
                s,
            ),
        post.questions_view().len() == applied.len(),
        forall|i: int|
            0 <= i < applied.len() ==> post.questions_view()[i] == with_speed(
                #[trigger] applied[i],
                s,
            ),
        post.teams_view() == with_totals(pre.teams_view(), post.questions_view()),
        1 <= post.current_question_number <= post.questions_view().len(),
        post.timer_running == pre.timer_running,
        post.timer_task_present == pre.timer_task_present,
        post.timer_running ==> post.timer_seconds_remaining == pre.timer_seconds_remaining,
    ensures
        post.wf(),
{
    assert forall|i: int| 0 <= i < post.questions_view().len() implies question_ok(
        #[trigger] post.questions_view()[i],
    ) && speed_ok(post.questions_view()[i], post.game_settings@) by {
        let oldq = pre.questions_view()[i];
        let a = applied[i];
        assert(question_ok(oldq));
        lemma_with_speed_ok(a, s);
        assert forall|x: int, y: int|
            0 <= x < y < a.answers.len() implies name_key(a.answers[x].team_name) != name_key(
            a.answers[y].team_name,
        ) by {
            assert(a.answers[x] == oldq.answers[x]);
            assert(a.answers[y] == oldq.answers[y]);
        }
        assert forall|x: int| 0 <= x < a.answers.len() implies answer_shape_ok(
            #[trigger] a.answers[x],
        ) by {
            assert(a.answers[x] == oldq.answers[x]);
            assert(answer_shape_ok(oldq.answers[x]));
        }
        assert(question_ok(a));
        assert(question_ok(post.questions_view()[i]));
    }
    lemma_with_totals_ok(pre.teams_view(), post.questions_view());
}

impl Game {
    /// Change one question's settings (1-based). Fails, changing nothing,
    /// when the question does not exist or already has answers. When the
    /// kind changes, the question's configuration is replaced by the default
    /// for the new kind. When the question is the current one and the timer
    /// is stopped, the countdown is reset to the new duration.
    pub fn update_question_settings(
        &mut self,
        question_number: usize,
        timer_duration: u32,
        question_points: u32,
        bonus_increment: u32,
        question_type: QuestionKind,
        speed_bonus_enabled: bool,
    ) -> (r: Result<(), &'static str>)
        requires
            old(self).wf(),
        ensures
            final(self).wf(),
            ({
                let valid = 1 <= question_number <= old(self).questions_view().len();
                &&& !valid ==> ({
                    &&& r matches Err(m) && m@ == "Question does not exist"@
                    &&& *final(self) == *old(self)
                })
                &&& valid ==> ({
                    let qi = question_number - 1;
                    let oldq = old(self).questions_view()[qi as int];
                    &&& oldq.answers.len() > 0 ==> ({
                        &&& r matches Err(m) && m@
                            == "Cannot update settings for a question that has answers"@
                        &&& *final(self) == *old(self)
                    })
                    &&& oldq.answers.len() == 0 ==> ({
                        &&& r is Ok
                        &&& final(self).questions_view() == old(self).questions_view().update(
                            qi as int,
                            QuestionView {
                                timer_duration,
                                question_points,
                                bonus_increment,
                                speed_bonus_enabled,
                                question_kind: question_type,
                                question_config: if question_type == oldq.question_kind {
                                    oldq.question_config
                                } else {
                                    crate::types::spec_default_config(
                                        question_type,
                                        old(self).game_settings@.default_mc_config,
                                    )
                                },
                                answers: oldq.answers,
                            },
                        )
                        &&& final(self).timer_seconds_remaining == (if question_number == old(
                            self,
                        ).current_question_number && !old(self).timer_running {
                            Some(timer_duration)
                        } else {
                            old(self).timer_seconds_remaining
                        })
                        &&& final(self).teams == old(self).teams
                        &&& final(self).timer_running == old(self).timer_running
                        &&& final(self).timer_task_present == old(self).timer_task_present
                        &&& final(self).current_question_number == old(
                            self,
                        ).current_question_number
                        &&& final(self).game_code == old(self).game_code
                        &&& final(self).host_user_id == old(self).host_user_id
                        &&& final(self).host_attached == old(self).host_attached
                        &&& final(self).game_settings == old(self).game_settings
                    })
                })
            }),
    {
        if question_number < 1 || question_number > self.questions.len() {
            return Err("Question does not exist");
        }
        let qi: usize = question_number - 1;
        if self.questions[qi].answers.len() > 0 {
            return Err("Cannot update settings for a question that has answers");
        }
        let kind_changed = !(self.questions[qi].question_kind == question_type);
        self.questions[qi].timer_duration = timer_duration;
        self.questions[qi].question_points = question_points;
        self.questions[qi].bonus_increment = bonus_increment;
        self.questions[qi].speed_bonus_enabled = speed_bonus_enabled;
        self.questions[qi].question_kind = question_type;
        if kind_changed {
            let config = QuestionConfig::default_for(
                question_type,
                &self.game_settings.default_mc_config,
            );
            self.questions[qi].question_config = config;
        }
        if question_number == self.current_question_number && !self.timer_running {
            self.timer_seconds_remaining = Some(timer_duration);
        }
        proof {
            let oldq = old(self).questions_view()[qi as int];
            assert(self.questions_view() =~= old(self).questions_view().update(
                qi as int,
                QuestionView {
                    timer_duration,
                    question_points,
                    bonus_increment,
                    speed_bonus_enabled,
                    question_kind: question_type,
                    question_config: if question_type == oldq.question_kind {
                        oldq.question_config
                    } else {
                        crate::types::spec_default_config(
                            question_type,
                            old(self).game_settings@.default_mc_config,
                        )
                    },
                    answers: oldq.answers,
                },
            ));
            lemma_unanswered_question_update_wf(*old(self), *self, qi as int);
        }
        Ok(())
    }

    /// Replace one question's kind-specific configuration (1-based). Fails,
    /// changing nothing, when the question does not exist, already has
    /// answers, or the configuration does not belong to the question's kind.
    pub fn update_type_specific_settings(
        &mut self,
        question_number: usize,
        question_config: QuestionConfig,
    ) -> (r: Result<(), &'static str>)
        requires
            old(self).wf(),
        ensures
            final(self).wf(),
            ({
                let valid = 1 <= question_number <= old(self).questions_view().len();
                &&& !valid ==> ({
                    &&& r matches Err(m) && m@ == "Question does not exist"@
                    &&& *final(self) == *old(self)
                })
                &&& valid ==> ({
                    let qi = question_number - 1;
                    let oldq = old(self).questions_view()[qi as int];
                    &&& oldq.answers.len() > 0 ==> ({
                        &&& r matches Err(m) && m@
                            == "Cannot update settings for a question that has answers"@
                        &&& *final(self) == *old(self)
                    })
                    &&& oldq.answers.len() == 0 && crate::types::config_kind(question_config@)
                        != oldq.question_kind ==> ({
                        &&& r matches Err(m) && m@
                            == "Question config does not match the question type"@
                        &&& *final(self) == *old(self)
                    })
                    &&& oldq.answers.len() == 0 && crate::types::config_kind(question_config@)
                        == oldq.question_kind ==> ({
                        &&& r is Ok
                        &&& final(self).questions_view() == old(self).questions_view().update(
                            qi as int,
                            QuestionView { question_config: question_config@, ..oldq },
                        )
                        &&& final(self).teams == old(self).teams
                        &&& frame(old(self), final(self))
                    })
                })
            }),
    {
        if question_number < 1 || question_number > self.questions.len() {
            return Err("Question does not exist");
        }
        let qi: usize = question_number - 1;
        if self.questions[qi].answers.len() > 0 {
            return Err("Cannot update settings for a question that has answers");
        }
        if !(question_config.kind() == self.questions[qi].question_kind) {
            return Err("Question config does not match the question type");
        }
        self.questions[qi].question_config = question_config;
        proof {
            let oldq = old(self).questions_view()[qi as int];
            assert(self.questions_view() =~= old(self).questions_view().update(
                qi as int,
                QuestionView {
                    question_config: final(self).questions_view()[qi as int].question_config,
                    ..oldq
                },
            ));
            lemma_unanswered_question_update_wf(*old(self), *self, qi as int);
        }
        Ok(())
    }
}

/// Helper: replacing an unanswered question with another unanswered,
/// well-formed question keeps the game well-formed.
proof fn lemma_unanswered_question_update_wf(pre: Game, post: Game, qi: int)
    requires
        pre.wf(),
        0 <= qi < pre.questions_view().len(),
        post.questions_view().len() == pre.questions_view().len(),
        forall|i: int|
            0 <= i < pre.questions_view().len() && i != qi ==> post.questions_view()[i]
                == pre.questions_view()[i],
        pre.questions_view()[qi].answers.len() == 0,
        post.questions_view()[qi].answers.len() == 0,
        crate::types::config_kind(post.questions_view()[qi].question_config)
            == post.questions_view()[qi].question_kind,
        post.teams_view() == pre.teams_view(),
        post.game_settings == pre.game_settings,
        1 <= post.current_question_number <= post.questions_view().len(),
        post.timer_ok(),
    ensures
        post.wf(),
{
    assert forall|i: int| 0 <= i < post.questions_view().len() implies question_ok(
        #[trigger] post.questions_view()[i],
    ) && speed_ok(post.questions_view()[i], post.game_settings@) by {
        if i != qi {
            assert(post.questions_view()[i] == pre.questions_view()[i]);
            assert(question_ok(pre.questions_view()[i]));
            assert(speed_ok(pre.questions_view()[i], pre.game_settings@));
        }
    }
    assert forall|t: int| 0 <= t < post.teams_view().len() implies {
        let tot = team_totals(
            post.questions_view(),
            name_key(#[trigger] post.teams_view()[t].team_name),
        );
        &&& post.teams_view()[t].score.question_points as int == tot.question_points
        &&& post.teams_view()[t].score.bonus_points as int == tot.bonus_points
        &&& post.teams_view()[t].score.speed_bonus_points as int == tot.speed_bonus_points
    } by {
        let name = name_key(post.teams_view()[t].team_name);
        assert forall|i: int|
            0 <= i < pre.questions_view().len() implies pre.questions_view()[i].answers
            == post.questions_view()[i].answers by {
            if i == qi {
                assert(pre.questions_view()[qi].answers =~= post.questions_view()[qi].answers);
            }
        }
        lemma_totals_congruence(post.questions_view(), pre.questions_view(), name);
    }
}

/// Helper for `score_answer`: the propagated-then-recomputed state is
/// well-formed.
proof fn lemma_score_answer_wf(pre: Game, post: Game, qi: int, k: int, qp: i32, bp: i32)
    requires
        pre.wf(),
        0 <= qi < pre.questions_view().len(),
        0 <= k < pre.questions_view()[qi].answers.len(),
        frame(&pre, &post),
        post.questions_view() == pre.questions_view().update(
            qi,
            with_speed(propagated(pre.questions_view()[qi], k, qp, bp), pre.game_settings@),
        ),
        post.teams_view() == with_totals(pre.teams_view(), post.questions_view()),
    ensures
        post.wf(),
{
    let s = pre.game_settings@;
    let oldq = pre.questions_view()[qi];
    let prop = propagated(oldq, k, qp, bp);
    let w = with_speed(prop, s);
    lemma_with_speed_ok(prop, s);
    assert(question_ok(oldq));
    assert forall|i: int, j: int| 0 <= i < j < w.answers.len() implies name_key(
        w.answers[i].team_name,
    ) != name_key(w.answers[j].team_name) by {
        assert(prop.answers[i].team_name == oldq.answers[i].team_name);
        assert(prop.answers[j].team_name == oldq.answers[j].team_name);
        assert(name_key(oldq.answers[i].team_name) != name_key(oldq.answers[j].team_name));
    }
    assert forall|i: int| 0 <= i < w.answers.len() implies answer_shape_ok(
        #[trigger] w.answers[i],
    ) by {
        assert(answer_shape_ok(oldq.answers[i]));
        assert(prop.answers[i].content == oldq.answers[i].content);
        assert(prop.answers[i].question_kind == oldq.answers[i].question_kind);
        assert(prop.answers[i].question_config == oldq.answers[i].question_config);
    }
    assert(question_ok(w));
    assert forall|i: int| 0 <= i < post.questions_view().len() implies question_ok(
        #[trigger] post.questions_view()[i],
    ) by {
        if i != qi {
            assert(post.questions_view()[i] == pre.questions_view()[i]);
        }
    }
    assert forall|i: int| 0 <= i < post.questions_view().len() implies speed_ok(
        #[trigger] post.questions_view()[i],
        post.game_settings@,
    ) by {
        if i != qi {
            assert(post.questions_view()[i] == pre.questions_view()[i]);
        }
    }
    lemma_with_totals_ok(pre.teams_view(), post.questions_view());
}

/// Helper for `add_answer`: the appended-then-recomputed state is
/// well-formed.
proof fn lemma_add_answer_wf(
    pre: Game,
    post: Game,
    qi: int,
    appended: QuestionView,
    new_name: Seq<char>,
)
    requires
        pre.wf(),
        0 <= qi < pre.questions_view().len(),
        appended.answers.len() == pre.questions_view()[qi].answers.len() + 1,
        forall|j: int|
            0 <= j < pre.questions_view()[qi].answers.len() ==> appended.answers[j]
                == pre.questions_view()[qi].answers[j],
        same_question_header(appended, pre.questions_view()[qi]),
        answer_index(pre.questions_view()[qi].answers, name_key(new_name)) == -1,
        appended.answers.last().team_name == new_name,
        answer_shape_ok(appended.answers.last()),
        frame(&pre, &post),
        post.questions_view() == pre.questions_view().update(
            qi,
            with_speed(appended, pre.game_settings@),
        ),
        post.teams_view() == with_totals(pre.teams_view(), post.questions_view()),
    ensures
        post.wf(),
{
    let s = pre.game_settings@;
    let oldq = pre.questions_view()[qi];
    let w = with_speed(appended, s);
    lemma_with_speed_ok(appended, s);
    crate::types::lemma_answer_index_props(oldq.answers, name_key(new_name));
    // The updated question is well-formed: unique names and sound shapes.
    assert(question_ok(oldq));
    assert forall|i: int, j: int| 0 <= i < j < w.answers.len() implies name_key(
        w.answers[i].team_name,
    ) != name_key(w.answers[j].team_name) by {
        if j < appended.answers.len() - 1 {
            assert(name_key(oldq.answers[i].team_name) != name_key(oldq.answers[j].team_name));
        } else {
            assert(name_key(oldq.answers[i].team_name) != name_key(new_name));
        }
    }
    assert forall|i: int| 0 <= i < w.answers.len() implies answer_shape_ok(
        #[trigger] w.answers[i],
    ) by {
        if i < appended.answers.len() - 1 {
            assert(answer_shape_ok(oldq.answers[i]));
            assert(appended.answers[i] == oldq.answers[i]);
        } else {
            assert(appended.answers[i] == appended.answers.last());
        }
    }
    assert(question_ok(w));
    assert forall|i: int| 0 <= i < post.questions_view().len() implies question_ok(
        #[trigger] post.questions_view()[i],
    ) by {
        if i != qi {
            assert(post.questions_view()[i] == pre.questions_view()[i]);
        }
    }
    assert forall|i: int| 0 <= i < post.questions_view().len() implies speed_ok(
        #[trigger] post.questions_view()[i],
        post.game_settings@,
    ) by {
        if i != qi {
            assert(post.questions_view()[i] == pre.questions_view()[i]);
        }
    }
    lemma_with_totals_ok(pre.teams_view(), post.questions_view());
}

impl Game {
    /// The full host-side projection of this game.
    pub fn to_game_state(&self) -> (r: crate::messages::GameState)
        ensures
            r@.game_code == self.game_code@,
            r@.current_question_number == self.current_question_number,
            r@.timer_running == self.timer_running,
            r@.timer_seconds_remaining == self.timer_seconds_remaining,
            r@.teams == self.teams_view(),
            r@.questions == self.questions_view(),
            r@.game_settings == self.game_settings@,
    {
        crate::messages::GameState {
            game_code: self.game_code.clone(),
            current_question_number: self.current_question_number,
            timer_running: self.timer_running,
            timer_seconds_remaining: self.timer_seconds_remaining,
            teams: crate::types::clone_teams(&self.teams),
            questions: crate::types::clone_questions(&self.questions),
            game_settings: self.game_settings.clone(),
        }
    }

    /// The projection of this game for one team: the shared header, that
    /// team's record, and each question reduced to that team's answer.
    /// Returns nothing when the team is unknown.
    pub fn to_team_game_state(&self, team_name: &str) -> (r: Option<crate::messages::TeamGameState>)
        requires
            self.wf(),
        ensures
            ({
                let k = team_index(self.teams_view(), name_key(team_name@));
                &&& (k >= 0) == (r is Some)
                &&& k >= 0 ==> ({
                    let st = r->Some_0;
                    &&& st@.game_code == self.game_code@
                    &&& st@.current_question_number == self.current_question_number
                    &&& st@.timer_running == self.timer_running
                    &&& st@.timer_seconds_remaining == self.timer_seconds_remaining
                    &&& st@.team == self.teams_view()[k]
                    &&& st@.questions.len() == self.questions_view().len()
                    &&& forall|i: int|
                        0 <= i < self.questions_view().len() ==> st@.questions[i]
                            == crate::types::spec_filter_for_team(
                            #[trigger] self.questions_view()[i],
                            team_name@,
                        )
                })
            }),
    {
        let k = match self.find_team(team_name) {
            Some(k) => k,
            None => {
                return None;
            },
        };
        proof {
            crate::types::lemma_team_index_props(self.teams_view(), name_key(team_name@));
        }
        let mut filtered: Vec<TeamQuestionResult> = Vec::new();
        let mut i: usize = 0;
        while i < self.questions.len()
            invariant
                i <= self.questions@.len(),
                filtered.deep_view().len() == i as int,
                forall|x: int|
                    0 <= x < i ==> filtered.deep_view()[x] == crate::types::spec_filter_for_team(
                        #[trigger] self.questions_view()[x],
                        team_name@,
                    ),
            decreases self.questions@.len() - i,
        {
            let entry = self.questions[i].filter_for_team(team_name);
            filtered.push(entry);
            i = i + 1;
        }
        Some(
            crate::messages::TeamGameState {
                game_code: self.game_code.clone(),
                current_question_number: self.current_question_number,
                timer_running: self.timer_running,
                timer_seconds_remaining: self.timer_seconds_remaining,
                team: self.teams[k].clone(),
                questions: filtered,
            },
        )
    }

    /// The scoreboard projection of this game: teams and totals, no answers.
    pub fn to_scoreboard_data(&self) -> (r: crate::messages::ScoreboardData)
        ensures
            r@.game_code == self.game_code@,
            r@.current_question_number == self.current_question_number,
            r@.timer_running == self.timer_running,
            r@.timer_seconds_remaining == self.timer_seconds_remaining,
            r@.teams == self.teams_view(),
    {
        crate::messages::ScoreboardData {
            game_code: self.game_code.clone(),
            current_question_number: self.current_question_number,
            timer_running: self.timer_running,
            timer_seconds_remaining: self.timer_seconds_remaining,
            teams: crate::types::clone_teams(&self.teams),
        }
    }
}

/// A saved host view that can be turned back into a game: the question
/// index is in range, team names are unique, and every question is
/// well-shaped.
pub open spec fn spec_state_valid(sv: crate::messages::GameStateView) -> bool {
    &&& 1 <= sv.current_question_number <= sv.questions.len()
    &&& teams_unique(sv.teams)
    &&& forall|i: int| 0 <= i < sv.questions.len() ==> question_ok(#[trigger] sv.questions[i])
}

/// Whether no two teams in the list share a name (case-insensitive).
fn teams_all_unique(teams: &Vec<TeamData>) -> (r: bool)
    ensures
        r == teams_unique(teams.deep_view()),
{
    let n = teams.len();
    let mut i: usize = 0;
    while i < n
        invariant
            i <= n,
            n == teams@.len(),
            forall|x: int, y: int|
                0 <= x < y < n && x < i ==> name_key(teams.deep_view()[x].team_name) != name_key(
                    teams.deep_view()[y].team_name,
                ),
        decreases n - i,
    {
        let mut j: usize = i + 1;
        while j < n
            invariant
                i < j <= n,
                n == teams@.len(),
                forall|y: int|
                    i < y < j ==> name_key(teams.deep_view()[i as int].team_name) != name_key(
                        teams.deep_view()[y].team_name,
                    ),
            decreases n - j,
        {
            if crate::norm::names_equal(teams[i].team_name.as_str(), teams[j].team_name.as_str()) {
                proof {
                    let td = teams.deep_view();
                    assert(name_key(td[i as int].team_name) == name_key(td[j as int].team_name));
                    assert(!teams_unique(td));
                }
                return false;
            }
            j = j + 1;
        }
        i = i + 1;
    }
    true
}

/// Whether no team answered this question twice (case-insensitive).
fn answers_all_unique(q: &Question) -> (r: bool)
    ensures
        r == answers_unique(q@),
{
    let n = q.answers.len();
    let mut i: usize = 0;
    while i < n
        invariant
            i <= n,
            n == q.answers@.len(),
            forall|x: int, y: int|
                0 <= x < y < n && x < i ==> name_key(q@.answers[x].team_name) != name_key(
                    q@.answers[y].team_name,
                ),
        decreases n - i,
    {
        let mut j: usize = i + 1;
        while j < n
            invariant
                i < j <= n,
                n == q.answers@.len(),
                forall|y: int|
                    i < y < j ==> name_key(q@.answers[i as int].team_name) != name_key(
                        q@.answers[y].team_name,
                    ),
            decreases n - j,
        {
            if crate::norm::names_equal(
                q.answers[i].team_name.as_str(),
                q.answers[j].team_name.as_str(),
            ) {
                proof {
                    assert(name_key(q@.answers[i as int].team_name) == name_key(
                        q@.answers[j as int].team_name,
                    ));
                    assert(!answers_unique(q@));
                }
                return false;
            }
            j = j + 1;
        }
        i = i + 1;
    }
    true
}

/// Whether a question is well-shaped: its configuration belongs to its kind
/// and its answers are well-shaped and unique.
fn question_valid(q: &Question) -> (r: bool)
    ensures
        r == question_ok(q@),
{
    if !(q.question_config.kind() == q.question_kind) {
        return false;
    }
    if !answers_all_unique(q) {
        return false;
    }
    let n = q.answers.len();
    let mut i: usize = 0;
    while i < n
        invariant
            i <= n,
            n == q.answers@.len(),
            forall|x: int| 0 <= x < i ==> answer_shape_ok(#[trigger] q@.answers[x]),
        decreases n - i,
    {
        let a = &q.answers[i];
        let content_matches = match &a.content {
            Some(c) => c.kind() == a.question_kind,
            None => false,
        };
        if !content_matches {
            proof {
                assert(!answer_shape_ok(q@.answers[i as int]));
            }
            return false;
        }
        if !(a.question_config.kind() == a.question_kind) {
            proof {
                assert(!answer_shape_ok(q@.answers[i as int]));
            }
            return false;
        }
        i = i + 1;
    }
    true
}

/// A recomputed game whose base questions are well-shaped is well-formed.
proof fn lemma_recomputed_wf(g: Game, base: Seq<QuestionView>, teams0: Seq<TeamDataView>)
    requires
        forall|i: int| 0 <= i < base.len() ==> question_ok(#[trigger] base[i]),
        teams_unique(teams0),
        g.questions_view().len() == base.len(),
        forall|i: int|
            0 <= i < base.len() ==> g.questions_view()[i] == with_speed(
                #[trigger] base[i],
                g.game_settings@,
            ),
        g.teams_view() == with_totals(teams0, g.questions_view()),
        1 <= g.current_question_number <= base.len(),
        g.timer_ok(),
    ensures
        g.wf(),
{
    assert forall|i: int| 0 <= i < g.questions_view().len() implies question_ok(
        #[trigger] g.questions_view()[i],
    ) && speed_ok(g.questions_view()[i], g.game_settings@) by {
        let b = base[i];
        lemma_with_speed_ok(b, g.game_settings@);
        assert forall|x: int, y: int|
            0 <= x < y < b.answers.len() implies name_key(
            g.questions_view()[i].answers[x].team_name,
        ) != name_key(g.questions_view()[i].answers[y].team_name) by {
            assert(name_key(b.answers[x].team_name) != name_key(b.answers[y].team_name));
        }
        assert forall|x: int| 0 <= x < b.answers.len() implies answer_shape_ok(
            #[trigger] g.questions_view()[i].answers[x],
        ) by {
            assert(answer_shape_ok(b.answers[x]));
        }
        assert(question_ok(g.questions_view()[i]));
    }
    lemma_with_totals_ok(teams0, g.questions_view());
}

impl Game {
    /// Rebuild a game from a saved host view, for a host reclaiming a game
    /// the registry no longer holds. The view is checked for structural
    /// soundness; derived data (speed bonuses and team totals) is recomputed
    /// rather than trusted. The timer starts stopped, with the saved seconds
    /// kept for display. Returns nothing when the view is not sound.
    pub fn from_game_state(state: crate::messages::GameState, host_user_id: String) -> (r: Option<
        Game,
    >)
        ensures
            (r is Some) == spec_state_valid(state@),
            r matches Some(g) ==> {
                &&& g.wf()
                &&& g.game_code@ == state@.game_code
                &&& g.host_user_id == host_user_id
                &&& g.host_attached
                &&& !g.timer_running
                &&& !g.timer_task_present
                &&& g.timer_seconds_remaining == state.timer_seconds_remaining
                &&& g.current_question_number == state.current_question_number
                &&& g.game_settings@ == state@.game_settings
                &&& g.questions_view().len() == state@.questions.len()
                &&& forall|i: int|
                    0 <= i < state@.questions.len() ==> g.questions_view()[i] == with_speed(
                        #[trigger] state@.questions[i],
                        state@.game_settings,
                    )
                &&& g.teams_view() == with_totals(state@.teams, g.questions_view())
            },
    {
        if state.current_question_number < 1 || state.current_question_number
            > state.questions.len() {
            return None;
        }
        if !teams_all_unique(&state.teams) {
            return None;
        }
        let num_questions = state.questions.len();
        let mut i: usize = 0;
        while i < num_questions
            invariant
                i <= num_questions,
                num_questions == state.questions@.len(),
                forall|x: int| 0 <= x < i ==> question_ok(#[trigger] state@.questions[x]),
        decreases num_questions - i,
        {
            if !question_valid(&state.questions[i]) {
                proof {
                    assert(!question_ok(state@.questions[i as int]));
                    assert(!spec_state_valid(state@));
                }
                return None;
            }
            i = i + 1;
        }
        let mut g = Game {
            game_code: state.game_code,
            host_user_id,
            host_attached: true,
            current_question_number: state.current_question_number,
            timer_running: false,
            timer_seconds_remaining: state.timer_seconds_remaining,
            timer_task_present: false,
            teams: state.teams,
            questions: state.questions,
            game_settings: state.game_settings,
        };
        let ghost base: Seq<QuestionView> = g.questions_view();
        let ghost teams0: Seq<TeamDataView> = g.teams_view();
        let mut j: usize = 0;
        while j < num_questions
            invariant
                j <= num_questions,
                num_questions == g.questions@.len(),
                base.len() == num_questions,
                teams0 == g.teams.deep_view(),
                g.game_settings@ == state@.game_settings,
                g.game_code@ == state@.game_code,
                g.host_user_id == host_user_id,
                g.host_attached,
                !g.timer_running,
                !g.timer_task_present,
                g.timer_seconds_remaining == state.timer_seconds_remaining,
                g.current_question_number == state.current_question_number,
                forall|x: int| j <= x < num_questions ==> g.questions_view()[x] == base[x],
                forall|x: int|
                    0 <= x < j ==> g.questions_view()[x] == with_speed(
                        #[trigger] base[x],
                        g.game_settings@,
                    ),
            decreases num_questions - j,
        {
            let ghost pre = g;
            g.recompute_speed_bonus(j);
            proof {
                assert forall|x: int|
                    0 <= x < j implies g.questions_view()[x] == with_speed(
                    #[trigger] base[x],
                    g.game_settings@,
                ) by {
                    assert(g.questions@[x] == pre.questions@[x]);
                }
            }
            j = j + 1;
        }
        g.recalc_all_teams();
        proof {
            assert(teams0 == state@.teams);
            assert(base == state@.questions);
            lemma_recomputed_wf(g, base, teams0);
            assert(g.teams_view() == with_totals(state@.teams, g.questions_view()));
        }
        Some(g)
    }
}

/// Helper: when only team fields other than names and scores changed, the
/// aggregate invariant carries over.
proof fn lemma_totals_unchanged(a: &Game, b: &Game)
    requires
        a.wf(),
        b.questions == a.questions,
        b.game_settings == a.game_settings,
        b.teams_view().len() == a.teams_view().len(),
        forall|t: int|
            0 <= t < a.teams_view().len() ==> #[trigger] b.teams_view()[t].team_name
                == a.teams_view()[t].team_name && b.teams_view()[t].score.question_points
                == a.teams_view()[t].score.question_points && b.teams_view()[t].score.bonus_points
                == a.teams_view()[t].score.bonus_points
                && b.teams_view()[t].score.speed_bonus_points
                == a.teams_view()[t].score.speed_bonus_points,
        1 <= b.current_question_number <= b.questions_view().len(),
        b.timer_ok(),
    ensures
        b.wf(),
{
    assert(teams_unique(b.teams_view()));
    assert(aggregates_ok(b.teams_view(), b.questions_view()));
}

} // verus!
