//! The laws of the game model, stated once and proved from the
//! well-formedness predicate and the operations' contracts.

use vstd::prelude::*;

use crate::game::{
    answer_contrib, expected_speed_bonus, propagated, team_totals, with_speed, AggView, Game,
};
use crate::norm::name_key;
use crate::score::clamp_i32;
use crate::types::{answer_content_key, AnswerView, QuestionView, SettingsView};

verus! {

/// Law: in a well-formed game, every team's derived score components equal
/// the sums of the matching components over that team's answers across all
/// questions, accumulated with clamped addition; the manual override takes
/// no part in them.
pub proof fn law_team_score_is_sum(g: Game, t: int)
    requires
        g.wf(),
        0 <= t < g.teams_view().len(),
    ensures
        ({
            let tot = team_totals(g.questions_view(), name_key(g.teams_view()[t].team_name));
            &&& g.teams_view()[t].score.question_points as int == tot.question_points
            &&& g.teams_view()[t].score.bonus_points as int == tot.bonus_points
            &&& g.teams_view()[t].score.speed_bonus_points as int == tot.speed_bonus_points
        }),
{
}

/// A team's totals without clamping: the plain mathematical sums.
pub open spec fn plain_totals(questions: Seq<QuestionView>, name: Seq<u8>) -> AggView
    decreases questions.len(),
{
    if questions.len() == 0 {
        AggView { question_points: 0, bonus_points: 0, speed_bonus_points: 0 }
    } else {
        let prev = plain_totals(questions.drop_last(), name);
        let c = answer_contrib(questions.last(), name);
        AggView {
            question_points: prev.question_points + c.question_points,
            bonus_points: prev.bonus_points + c.bonus_points,
            speed_bonus_points: prev.speed_bonus_points + c.speed_bonus_points,
        }
    }
}

/// Every partial plain sum stays in the `i32` range.
pub open spec fn plain_totals_in_range(questions: Seq<QuestionView>, name: Seq<u8>) -> bool {
    forall|k: int|
        0 <= k <= questions.len() ==> {
            let p = plain_totals(#[trigger] questions.take(k), name);
            &&& i32::MIN <= p.question_points <= i32::MAX
            &&& i32::MIN <= p.bonus_points <= i32::MAX
            &&& i32::MIN <= p.speed_bonus_points <= i32::MAX
        }
}

/// Law: clamped accumulation agrees with the plain sums as long as every
/// partial sum stays in the `i32` range. With `law_team_score_is_sum` this
/// makes each stored team total the exact sum of its answers' components
/// whenever that sum is representable.
pub proof fn law_totals_exact_when_in_range(questions: Seq<QuestionView>, name: Seq<u8>)
    requires
        plain_totals_in_range(questions, name),
    ensures
        team_totals(questions, name) == plain_totals(questions, name),
    decreases questions.len(),
{
    if questions.len() > 0 {
        let prefix = questions.drop_last();
        assert forall|k: int| 0 <= k <= prefix.len() implies {
            let p = plain_totals(#[trigger] prefix.take(k), name);
            &&& i32::MIN <= p.question_points <= i32::MAX
            &&& i32::MIN <= p.bonus_points <= i32::MAX
            &&& i32::MIN <= p.speed_bonus_points <= i32::MAX
        } by {
            assert(prefix.take(k) =~= questions.take(k));
        }
        law_totals_exact_when_in_range(prefix, name);
        assert(questions.take(questions.len() as int) =~= questions);
        assert(questions.take(questions.len() - 1) =~= prefix);
    }
}

/// Law: in a well-formed game no question holds two answers by the same
/// team, compared case-insensitively.
pub proof fn law_no_duplicate_answers(g: Game, q: int, i: int, j: int)
    requires
        g.wf(),
        0 <= q < g.questions_view().len(),
        0 <= i < j < g.questions_view()[q].answers.len(),
    ensures
        name_key(g.questions_view()[q].answers[i].team_name) != name_key(
            g.questions_view()[q].answers[j].team_name,
        ),
{
}

/// Law: in a well-formed game every stored speed bonus equals the
/// speed-bonus rule applied to its question in submission order under the
/// current settings; in particular it is zero when the question has speed
/// bonuses disabled or the answer carries no positive question points.
pub proof fn law_speed_bonus_correct(g: Game, q: int, i: int)
    requires
        g.wf(),
        0 <= q < g.questions_view().len(),
        0 <= i < g.questions_view()[q].answers.len(),
    ensures
        g.questions_view()[q].answers[i].score.speed_bonus_points as int == expected_speed_bonus(
            g.questions_view()[q],
            g.game_settings@,
            i,
        ),
        !g.questions_view()[q].speed_bonus_enabled ==> g.questions_view()[q].answers[i].score.speed_bonus_points
            == 0,
{
    if !g.questions_view()[q].speed_bonus_enabled {
        assert(expected_speed_bonus(g.questions_view()[q], g.game_settings@, i) == 0);
        assert(g.questions_view()[q].answers[i].score.speed_bonus_points as int == 0);
    }
}

/// Law: in a well-formed game the timer-running flag and the tick task
/// mirror one another, and a countdown at zero (or absent) means the timer
/// is stopped.
pub proof fn law_timer_consistent(g: Game)
    requires
        g.wf(),
    ensures
        g.timer_running <==> g.timer_task_present,
        g.timer_seconds_remaining == Some(0u32) ==> !g.timer_running,
        g.timer_seconds_remaining is None ==> !g.timer_running,
{
}

/// Law: scoring an answer propagates to every answer on the question with
/// the same content key. For any two answers with equal keys, writing a
/// score to either of them leaves both with exactly the written question
/// points and bonus points (the speed bonuses are recomputed separately).
pub proof fn law_equal_keys_scored_equally(
    q: QuestionView,
    s: SettingsView,
    k: int,
    qp: i32,
    bp: i32,
    i: int,
    j: int,
)
    requires
        0 <= i < q.answers.len(),
        0 <= j < q.answers.len(),
        0 <= k < q.answers.len(),
        k == i || k == j,
        answer_content_key(q.answers[i]) is Some,
        answer_content_key(q.answers[i]) == answer_content_key(q.answers[j]),
    ensures
        ({
            let w = with_speed(propagated(q, k, qp, bp), s);
            &&& w.answers[i].score.question_points == qp
            &&& w.answers[i].score.bonus_points == bp
            &&& w.answers[j].score.question_points == qp
            &&& w.answers[j].score.bonus_points == bp
        }),
{
    let p = propagated(q, k, qp, bp);
    assert(p.answers[i].score.question_points == qp && p.answers[i].score.bonus_points == bp);
    assert(p.answers[j].score.question_points == qp && p.answers[j].score.bonus_points == bp);
    crate::game::lemma_with_speed_ok(p, s);
}

} // verus!
