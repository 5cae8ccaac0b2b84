//! The records of the pipeline, and the mathematical values they stand for.
//!
//! Each record has a view: the same fields with texts as sequences of
//! characters and numbers as unbounded integers. The contracts of the
//! library speak of views.
use vstd::prelude::*;

verus! {

/// `time::OffsetDateTime`, a date with time and offset. The library hands
/// it on as it is, and looks at nothing in it.
#[verifier::external_type_specification]
#[verifier::external_body]
pub struct ExOffsetDateTime(time::OffsetDateTime);

/// One player of a team, as read from the input. Goals, goal assists and
/// games are counts: a scorer that is read from a line holds none that is
/// negative.
#[derive(Debug, Clone, PartialEq, Eq)]
pub struct TeamScorerRaw {
    pub scorer_first_name: String,
    pub scorer_last_name: String,
    pub goals: i64,
    pub goal_assists: i64,
    pub games: i64,
}

/// One team, as read from one line of the input. A team that is read from
/// a line has a name that is not empty.
#[derive(Debug, Clone, PartialEq, Eq)]
pub struct TeamStatsRaw {
    pub team_name: String,
    pub team_score: i64,
    pub scorers: Vec<TeamScorerRaw>,
}

/// The scorer with the most goals of a team.
#[derive(Debug, Clone, PartialEq, Eq)]
pub struct TopScorerStats {
    pub first_name: String,
    pub last_name: String,
    pub goals: i64,
    pub games: i64,
}

/// The scorer with the most goal assists of a team.
#[derive(Debug, Clone, PartialEq, Eq)]
pub struct BestPasserStats {
    pub first_name: String,
    pub last_name: String,
    pub goal_assists: i64,
    pub games: i64,
}

/// One team with its aggregates, its slogan and the date of ingestion.
///
/// The total of goals is kept in 128 bits: a sum of 64-bit numbers, however
/// many a vector can hold, fits there.
#[derive(Debug, Clone, PartialEq, Eq)]
pub struct TeamStats {
    pub team_name: String,
    pub team_score: i64,
    pub team_total_goals: i128,
    pub team_slogan: String,
    pub top_scorer_stats: TopScorerStats,
    pub best_passer_stats: BestPasserStats,
    pub ingestion_date: Option<time::OffsetDateTime>,
}

/// View of a [`TeamScorerRaw`].
pub struct Scorer {
    pub first_name: Seq<char>,
    pub last_name: Seq<char>,
    pub goals: int,
    pub goal_assists: int,
    pub games: int,
}

/// View of a [`TeamStatsRaw`].
pub struct RawTeam {
    pub team_name: Seq<char>,
    pub team_score: int,
    pub scorers: Seq<Scorer>,
}

/// View of a [`TopScorerStats`].
pub struct TopScorer {
    pub first_name: Seq<char>,
    pub last_name: Seq<char>,
    pub goals: int,
    pub games: int,
}

/// View of a [`BestPasserStats`].
pub struct BestPasser {
    pub first_name: Seq<char>,
    pub last_name: Seq<char>,
    pub goal_assists: int,
    pub games: int,
}

/// View of a [`TeamStats`].
pub struct EnrichedTeam {
    pub team_name: Seq<char>,
    pub team_score: int,
    pub team_total_goals: int,
    pub team_slogan: Seq<char>,
    pub top_scorer_stats: TopScorer,
    pub best_passer_stats: BestPasser,
    pub ingestion_date: Option<time::OffsetDateTime>,
}

impl View for TeamScorerRaw {
    type V = Scorer;

    open spec fn view(&self) -> Scorer {
        Scorer {
            first_name: self.scorer_first_name@,
            last_name: self.scorer_last_name@,
            goals: self.goals as int,
            goal_assists: self.goal_assists as int,
            games: self.games as int,
        }
    }
}

impl View for TeamStatsRaw {
    type V = RawTeam;

    open spec fn view(&self) -> RawTeam {
        RawTeam {
            team_name: self.team_name@,
            team_score: self.team_score as int,
            scorers: self.scorers@.map_values(|scorer: TeamScorerRaw| scorer@),
        }
    }
}

impl View for TopScorerStats {
    type V = TopScorer;

    open spec fn view(&self) -> TopScorer {
        TopScorer {
            first_name: self.first_name@,
            last_name: self.last_name@,
            goals: self.goals as int,
            games: self.games as int,
        }
    }
}

impl View for BestPasserStats {
    type V = BestPasser;

    open spec fn view(&self) -> BestPasser {
        BestPasser {
            first_name: self.first_name@,
            last_name: self.last_name@,
            goal_assists: self.goal_assists as int,
            games: self.games as int,
        }
    }
}

impl View for TeamStats {
    type V = EnrichedTeam;

    open spec fn view(&self) -> EnrichedTeam {
        EnrichedTeam {
            team_name: self.team_name@,
            team_score: self.team_score as int,
            team_total_goals: self.team_total_goals as int,
            team_slogan: self.team_slogan@,
            top_scorer_stats: self.top_scorer_stats@,
            best_passer_stats: self.best_passer_stats@,
            ingestion_date: self.ingestion_date,
        }
    }
}

} // verus!
