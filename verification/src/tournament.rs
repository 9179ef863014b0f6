//! Many matches between the same warriors: who won most.
use vstd::prelude::*;
use vstd::string::*;
use crate::engine::{MatchOutcome, OutcomeView};
use crate::warrior::Warrior;

verus! {

/// The name under which a warrior's wins are counted: its own, or the empty
/// name where it has none.
pub open spec fn contender_spec(warrior: Warrior) -> Seq<char> {
    match warrior@.metadata.name {
        Some(name) => name,
        None => Seq::empty(),
    }
}

/// What an outcome adds to the score of `name`: a win counts for the
/// winner's name, a draw for the name `Draw`.
pub open spec fn points_spec(outcome: OutcomeView, name: Seq<char>) -> nat {
    match outcome {
        OutcomeView::Win(warrior) => if contender_spec(warrior) == name {
            1
        } else {
            0
        },
        OutcomeView::Draw(_) => if name == "Draw"@ {
            1
        } else {
            0
        },
    }
}

/// Outcomes as mathematics.
pub open spec fn outcomes_view(outcomes: Seq<MatchOutcome>) -> Seq<OutcomeView> {
    Seq::new(outcomes.len(), |i: int| outcomes[i]@)
}

/// The score of `name` over the first `count` outcomes.
pub open spec fn score_spec(outcomes: Seq<OutcomeView>, name: Seq<char>, count: int) -> nat
    decreases count,
{
    if count <= 0 {
        0
    } else {
        score_spec(outcomes, name, count - 1) + points_spec(outcomes[count - 1], name)
    }
}

/// The names that scores are kept for: `Draw`, then each participant's.
pub open spec fn contenders_spec(participants: Seq<Warrior>) -> Seq<Seq<char>> {
    seq!["Draw"@] + Seq::new(participants.len(), |i: int| contender_spec(participants[i]))
}

/// The place, among the first `count` contenders, of the one that stands
/// first among those with the highest score.
pub open spec fn best_spec(outcomes: Seq<OutcomeView>, contenders: Seq<Seq<char>>, count: int)
    -> int
    decreases count,
{
    if count <= 1 {
        0
    } else {
        let best = best_spec(outcomes, contenders, count - 1);
        if score_spec(outcomes, contenders[count - 1], outcomes.len() as int) > score_spec(
            outcomes,
            contenders[best],
            outcomes.len() as int,
        ) {
            count - 1
        } else {
            best
        }
    }
}

/// The best contender has a score that none has more than, and that none
/// before it has as much as.
pub proof fn lemma_best_is_first_highest(
    outcomes: Seq<OutcomeView>,
    contenders: Seq<Seq<char>>,
    count: int,
)
    requires
        1 <= count <= contenders.len(),
    ensures
        0 <= best_spec(outcomes, contenders, count) < count,
        forall|i: int|
            0 <= i < count ==> score_spec(outcomes, #[trigger] contenders[i], outcomes.len() as int)
                <= score_spec(
                outcomes,
                contenders[best_spec(outcomes, contenders, count)],
                outcomes.len() as int,
            ),
        forall|i: int|
            0 <= i < best_spec(outcomes, contenders, count) ==> score_spec(
                outcomes,
                #[trigger] contenders[i],
                outcomes.len() as int,
            ) < score_spec(
                outcomes,
                contenders[best_spec(outcomes, contenders, count)],
                outcomes.len() as int,
            ),
    decreases count,
{
    if count > 1 {
        lemma_best_is_first_highest(outcomes, contenders, count - 1);
    }
}

/// The name under which a warrior's wins are counted.
pub fn contender(warrior: &Warrior) -> (name: String)
    ensures
        name@ == contender_spec(*warrior),
{
    match warrior.metadata.name() {
        Some(name) => name.to_owned(),
        None => String::new(),
    }
}

/// The score of `name` over the outcomes.
pub fn score(match_results: &Vec<MatchOutcome>, name: &String) -> (total: usize)
    ensures
        total == score_spec(outcomes_view(match_results@), name@, match_results@.len() as int),
{
    let draw = "Draw".to_owned();
    let mut total: usize = 0;
    let mut i: usize = 0;
    while i < match_results.len()
        invariant
            i <= match_results@.len(),
            draw@ == "Draw"@,
            total <= i,
            total == score_spec(outcomes_view(match_results@), name@, i as int),
        decreases match_results@.len() - i,
    {
        let counts = match &match_results[i] {
            MatchOutcome::Win(winner) => contender(winner) == *name,
            MatchOutcome::Draw(_) => *name == draw,
        };
        if counts {
            total += 1;
        }
        i += 1;
    }
    total
}

/// Names the winner of many matches: the name with the highest score, where
/// a won match counts for the winner's name and a drawn one for `Draw`.
/// Among names with the same score the first counts, `Draw` before the
/// participants in their order; so `Draw` is named where nobody won.
pub fn declare_results(match_results: &Vec<MatchOutcome>, participants: &[Warrior]) -> (winner:
    String)
    ensures
        winner@ == contenders_spec(participants@)[best_spec(
            outcomes_view(match_results@),
            contenders_spec(participants@),
            participants@.len() as int + 1,
        )],
        forall|i: int|
            0 <= i <= participants@.len() ==> score_spec(
                outcomes_view(match_results@),
                #[trigger] contenders_spec(participants@)[i],
                match_results@.len() as int,
            ) <= score_spec(outcomes_view(match_results@), winner@, match_results@.len() as int),
{
    let ghost outcomes = outcomes_view(match_results@);
    let ghost contenders = contenders_spec(participants@);
    proof {
        lemma_best_is_first_highest(outcomes, contenders, participants@.len() as int + 1);
    }
    let mut winner = "Draw".to_owned();
    let mut winner_score = score(match_results, &winner);
    let mut i: usize = 0;
    while i < participants.len()
        invariant
            i <= participants@.len(),
            outcomes == outcomes_view(match_results@),
            contenders == contenders_spec(participants@),
            0 <= best_spec(outcomes, contenders, i + 1) <= i,
            winner@ == contenders[best_spec(outcomes, contenders, i + 1)],
            winner_score == score_spec(outcomes, winner@, outcomes.len() as int),
        decreases participants@.len() - i,
    {
        let name = contender(&participants[i]);
        assert(name@ == contenders[i + 1]);
        let total = score(match_results, &name);
        if total > winner_score {
            winner = name;
            winner_score = total;
        }
        i += 1;
    }
    winner
}

} // verus!
