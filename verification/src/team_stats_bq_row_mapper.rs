//! From the teams to the rows that are handed to the table.
use crate::domain::team_stats_structs::TeamStats;
use vstd::prelude::*;

verus! {

/// One row for the table: the team as its payload, and an identifier by
/// which the table may recognise a row that is sent twice.
#[derive(Debug, Clone, PartialEq, Eq)]
pub struct OutputRow {
    pub insert_id: Option<String>,
    pub json: TeamStats,
}

/// The row of a team: the team itself, without identifier.
pub open spec fn row_of(team_stats: TeamStats) -> OutputRow {
    OutputRow { insert_id: None, json: team_stats }
}

/// The row of each team, in order.
pub open spec fn rows_of(teams: Seq<TeamStats>) -> Seq<OutputRow> {
    teams.map_values(|team_stats: TeamStats| row_of(team_stats))
}

pub struct TeamStatsBQRowMapper;

impl TeamStatsBQRowMapper {
    /// Wraps each team into one row. There are as many rows as teams, in
    /// the same order, each without identifier and with its team unchanged.
    pub fn map_to_team_stats_bigquery_rows(team_stats_domain_list: Vec<TeamStats>) -> (rows: Vec<
        OutputRow,
    >)
        ensures
            rows@ == rows_of(team_stats_domain_list@),
            rows@.len() == team_stats_domain_list@.len(),
            forall|i: int|
                0 <= i < rows@.len() ==> (#[trigger] rows@[i]).insert_id is None && rows@[i].json
                    == team_stats_domain_list@[i],
    {
        let ghost teams = team_stats_domain_list@;
        let mut rows: Vec<OutputRow> = Vec::new();
        for team_stats in iter: team_stats_domain_list.into_iter()
            invariant
                iter.seq() == teams,
                rows@ == rows_of(teams.take(iter.index())),
        {
            assert(rows_of(teams.take(iter.index() + 1)) =~= rows_of(
                teams.take(iter.index()),
            ).push(row_of(team_stats)));
            rows.push(Self::map_to_team_stats_bigquery_row(team_stats));
        }
        assert(teams.take(teams.len() as int) =~= teams);
        rows
    }

    /// Wraps one team into a row without identifier.
    pub fn map_to_team_stats_bigquery_row(team_stats: TeamStats) -> (row: OutputRow)
        ensures
            row == row_of(team_stats),
    {
        OutputRow { insert_id: None, json: team_stats }
    }
}

} // verus!
