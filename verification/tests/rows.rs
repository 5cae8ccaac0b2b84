use team_stats::domain::team_stats_structs::BestPasserStats;
use team_stats::domain::team_stats_structs::TeamStats;
use team_stats::domain::team_stats_structs::TopScorerStats;
use team_stats::team_stats_bq_row_mapper::OutputRow;
use team_stats::team_stats_bq_row_mapper::TeamStatsBQRowMapper;

fn team(name: &str, goals: i128) -> TeamStats {
    TeamStats {
        team_name: name.to_string(),
        team_score: 3,
        team_total_goals: goals,
        team_slogan: format!("slogan of {}", name),
        top_scorer_stats: TopScorerStats {
            first_name: "A".to_string(),
            last_name: "B".to_string(),
            goals: 2,
            games: 10,
        },
        best_passer_stats: BestPasserStats {
            first_name: "C".to_string(),
            last_name: "D".to_string(),
            goal_assists: 3,
            games: 8,
        },
        ingestion_date: Some(time::OffsetDateTime::UNIX_EPOCH),
    }
}

#[test]
fn each_team_becomes_one_row_without_identifier() {
    let teams = vec![team("PSG", 4), team("Real", 7), team("PSG", 4)];
    let rows = TeamStatsBQRowMapper::map_to_team_stats_bigquery_rows(teams.clone());
    assert_eq!(rows.len(), 3);
    for (row, team) in rows.iter().zip(teams.iter()) {
        assert_eq!(row.insert_id, None);
        assert_eq!(&row.json, team);
    }
}

#[test]
fn no_team_no_row() {
    assert_eq!(TeamStatsBQRowMapper::map_to_team_stats_bigquery_rows(vec![]), vec![]);
}

#[test]
fn one_team_one_row() {
    assert_eq!(
        TeamStatsBQRowMapper::map_to_team_stats_bigquery_row(team("PSG", 4)),
        OutputRow { insert_id: None, json: team("PSG", 4) }
    );
}
