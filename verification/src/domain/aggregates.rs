//! The aggregates of a team: what they are, and what holds of them.
use crate::domain::team_stats_structs::BestPasser;
use crate::domain::team_stats_structs::EnrichedTeam;
use crate::domain::team_stats_structs::RawTeam;
use crate::domain::team_stats_structs::Scorer;
use crate::domain::team_stats_structs::TopScorer;
use crate::error::Failure;
use vstd::prelude::*;

verus! {

/// The goals of all scorers together.
pub open spec fn total_goals(scorers: Seq<Scorer>) -> int
    decreases scorers.len(),
{
    if scorers.len() == 0 {
        0
    } else {
        total_goals(scorers.drop_last()) + scorers.last().goals
    }
}

/// The position of the greatest of `values`, and of the first of them where
/// several are the greatest. It is 0 where there is no value.
pub open spec fn first_max(values: Seq<int>) -> int
    decreases values.len(),
{
    if values.len() <= 1 {
        0
    } else {
        let before = first_max(values.drop_last());
        if values.last() > values[before] {
            values.len() - 1
        } else {
            before
        }
    }
}

/// The goals of each scorer, in order.
pub open spec fn goals_of(scorers: Seq<Scorer>) -> Seq<int> {
    scorers.map_values(|scorer: Scorer| scorer.goals)
}

/// The goal assists of each scorer, in order.
pub open spec fn assists_of(scorers: Seq<Scorer>) -> Seq<int> {
    scorers.map_values(|scorer: Scorer| scorer.goal_assists)
}

/// A scorer as the top scorer of its team.
pub open spec fn as_top_scorer(scorer: Scorer) -> TopScorer {
    TopScorer {
        first_name: scorer.first_name,
        last_name: scorer.last_name,
        goals: scorer.goals,
        games: scorer.games,
    }
}

/// A scorer as the best passer of its team.
pub open spec fn as_best_passer(scorer: Scorer) -> BestPasser {
    BestPasser {
        first_name: scorer.first_name,
        last_name: scorer.last_name,
        goal_assists: scorer.goal_assists,
        games: scorer.games,
    }
}

/// What a team record becomes, given the date of ingestion and the slogans.
///
/// A team without scorers fails, whether or not it has a slogan. A team
/// with scorers and without slogan fails and names the team. Any other team
/// gets its total of goals, its first scorer with the most goals, its first
/// scorer with the most goal assists, and its slogan.
pub open spec fn enriched(
    ingestion_date: Option<time::OffsetDateTime>,
    slogans: Map<Seq<char>, Seq<char>>,
    team: RawTeam,
) -> Result<EnrichedTeam, Failure> {
    if team.scorers.len() == 0 {
        Err(Failure::NoScorers { team_name: team.team_name })
    } else if !slogans.contains_key(team.team_name) {
        Err(Failure::UnknownTeam { team_name: team.team_name })
    } else {
        Ok(
            EnrichedTeam {
                team_name: team.team_name,
                team_score: team.team_score,
                team_total_goals: total_goals(team.scorers),
                team_slogan: slogans[team.team_name],
                top_scorer_stats: as_top_scorer(
                    team.scorers[first_max(goals_of(team.scorers))],
                ),
                best_passer_stats: as_best_passer(
                    team.scorers[first_max(assists_of(team.scorers))],
                ),
                ingestion_date,
            },
        )
    }
}

/// `first_max` is the position of a greatest value, and every value before
/// it is smaller.
pub proof fn lemma_first_max_is_first_greatest(values: Seq<int>)
    requires
        values.len() > 0,
    ensures
        0 <= first_max(values) < values.len(),
        forall|i: int|
            0 <= i < values.len() ==> #[trigger] values[i] <= values[first_max(values)],
        forall|i: int|
            0 <= i < first_max(values) ==> #[trigger] values[i] < values[first_max(values)],
    decreases values.len(),
{
    if values.len() > 1 {
        let before = values.drop_last();
        lemma_first_max_is_first_greatest(before);
        assert forall|i: int| 0 <= i < before.len() implies before[i] == values[i] by {}
    }
}

/// A position is that of `first_max` where its value is a greatest one and
/// every value before it is smaller: no other position is chosen.
pub proof fn lemma_first_greatest_is_first_max(values: Seq<int>, at: int)
    requires
        0 <= at < values.len(),
        forall|i: int| 0 <= i < values.len() ==> #[trigger] values[i] <= values[at],
        forall|i: int| 0 <= i < at ==> #[trigger] values[i] < values[at],
    ensures
        first_max(values) == at,
{
    lemma_first_max_is_first_greatest(values);
}

/// Where two scorers have the same number of goals and nobody has more,
/// the top scorer is not the later of the two: a tie goes to the scorer
/// that comes first.
pub proof fn lemma_tie_goes_to_first_top_scorer(scorers: Seq<Scorer>, first: int, second: int)
    requires
        0 <= first < second < scorers.len(),
        scorers[first].goals == scorers[second].goals,
        forall|i: int|
            0 <= i < scorers.len() ==> #[trigger] scorers[i].goals <= scorers[first].goals,
    ensures
        first_max(goals_of(scorers)) <= first,
        scorers[first_max(goals_of(scorers))].goals == scorers[first].goals,
{
    let goals = goals_of(scorers);
    lemma_first_max_is_first_greatest(goals);
    assert(goals[first] == scorers[first].goals);
    assert(goals[first_max(goals)] == scorers[first_max(goals)].goals);
}

/// Where two scorers have the same number of goal assists and nobody has
/// more, the best passer is not the later of the two.
pub proof fn lemma_tie_goes_to_first_best_passer(scorers: Seq<Scorer>, first: int, second: int)
    requires
        0 <= first < second < scorers.len(),
        scorers[first].goal_assists == scorers[second].goal_assists,
        forall|i: int|
            0 <= i < scorers.len() ==> #[trigger] scorers[i].goal_assists
                <= scorers[first].goal_assists,
    ensures
        first_max(assists_of(scorers)) <= first,
        scorers[first_max(assists_of(scorers))].goal_assists == scorers[first].goal_assists,
{
    let assists = assists_of(scorers);
    lemma_first_max_is_first_greatest(assists);
    assert(assists[first] == scorers[first].goal_assists);
    assert(assists[first_max(assists)] == scorers[first_max(assists)].goal_assists);
}

} // verus!
