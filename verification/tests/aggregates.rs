use team_stats::domain::team_stats_mapper::TeamStatsMapper;
use team_stats::domain::team_stats_structs::BestPasserStats;
use team_stats::domain::team_stats_structs::TeamScorerRaw;
use team_stats::domain::team_stats_structs::TeamStats;
use team_stats::domain::team_stats_structs::TeamStatsRaw;
use team_stats::domain::team_stats_structs::TopScorerStats;
use team_stats::error::TeamStatsError;
use team_stats::slogans::TeamSlogans;

fn scorer(first: &str, last: &str, goals: i64, goal_assists: i64, games: i64) -> TeamScorerRaw {
    TeamScorerRaw {
        scorer_first_name: first.to_string(),
        scorer_last_name: last.to_string(),
        goals,
        goal_assists,
        games,
    }
}

fn team(scorers: Vec<TeamScorerRaw>) -> TeamStatsRaw {
    TeamStatsRaw { team_name: "PSG".to_string(), team_score: 3, scorers }
}

fn slogans() -> TeamSlogans {
    let mut slogans = TeamSlogans::new();
    slogans.insert("PSG".to_string(), "Paris est magique".to_string());
    slogans
}

fn enrich(scorers: Vec<TeamScorerRaw>) -> TeamStats {
    TeamStatsMapper::map_to_team_stats_domain(None, &slogans(), team(scorers)).unwrap()
}

#[test]
fn every_field_of_the_team() {
    let date = time::OffsetDateTime::UNIX_EPOCH;
    let result = TeamStatsMapper::map_to_team_stats_domain(
        Some(date),
        &slogans(),
        team(vec![scorer("A", "B", 2, 1, 10), scorer("C", "D", 2, 3, 8)]),
    );
    assert_eq!(
        result,
        Ok(TeamStats {
            team_name: "PSG".to_string(),
            team_score: 3,
            team_total_goals: 4,
            team_slogan: "Paris est magique".to_string(),
            top_scorer_stats: TopScorerStats {
                first_name: "A".to_string(),
                last_name: "B".to_string(),
                goals: 2,
                games: 10,
            },
            best_passer_stats: BestPasserStats {
                first_name: "C".to_string(),
                last_name: "D".to_string(),
                goal_assists: 3,
                games: 8,
            },
            ingestion_date: Some(date),
        })
    );
}

#[test]
fn total_goals_is_the_sum_of_the_goals() {
    assert_eq!(enrich(vec![scorer("A", "B", 5, 0, 1)]).team_total_goals, 5);
    assert_eq!(
        enrich(vec![scorer("A", "B", 1, 0, 1), scorer("C", "D", 2, 0, 1), scorer("E", "F", 39, 0, 1)])
            .team_total_goals,
        42
    );
    assert_eq!(enrich(vec![scorer("A", "B", 0, 0, 0)]).team_total_goals, 0);
}

#[test]
fn total_goals_does_not_wrap() {
    let stats = enrich(vec![
        scorer("A", "B", i64::MAX, 0, 1),
        scorer("C", "D", i64::MAX, 0, 1),
        scorer("E", "F", 1, 0, 1),
    ]);
    assert_eq!(stats.team_total_goals, 18_446_744_073_709_551_615_i128);
}

#[test]
fn a_tie_for_goals_goes_to_the_first() {
    let stats = enrich(vec![
        scorer("A", "B", 1, 0, 1),
        scorer("C", "D", 4, 0, 2),
        scorer("E", "F", 4, 0, 3),
        scorer("G", "H", 4, 0, 4),
        scorer("I", "J", 3, 0, 5),
    ]);
    assert_eq!(
        stats.top_scorer_stats,
        TopScorerStats { first_name: "C".to_string(), last_name: "D".to_string(), goals: 4, games: 2 }
    );
    let stats = enrich(vec![scorer("A", "B", 0, 0, 1), scorer("C", "D", 0, 0, 2)]);
    assert_eq!(stats.top_scorer_stats.first_name, "A");
    assert_eq!(stats.best_passer_stats.first_name, "A");
}

#[test]
fn a_tie_for_assists_goes_to_the_first() {
    let stats = enrich(vec![
        scorer("A", "B", 9, 2, 1),
        scorer("C", "D", 1, 7, 2),
        scorer("E", "F", 1, 7, 3),
        scorer("G", "H", 1, 5, 4),
    ]);
    assert_eq!(
        stats.best_passer_stats,
        BestPasserStats {
            first_name: "C".to_string(),
            last_name: "D".to_string(),
            goal_assists: 7,
            games: 2,
        }
    );
    assert_eq!(stats.top_scorer_stats.first_name, "A");
}

#[test]
fn the_greatest_may_come_last() {
    let stats = enrich(vec![
        scorer("A", "B", 5, 1, 1),
        scorer("C", "D", 3, 2, 2),
        scorer("E", "F", 8, 2, 3),
    ]);
    assert_eq!(stats.top_scorer_stats.first_name, "E");
    assert_eq!(stats.top_scorer_stats.goals, 8);
    assert_eq!(stats.best_passer_stats.first_name, "C");
    assert_eq!(stats.best_passer_stats.goal_assists, 2);
    assert_eq!(stats.team_total_goals, 16);
}

#[test]
fn one_scorer_may_be_top_scorer_and_best_passer() {
    let stats = enrich(vec![scorer("A", "B", 1, 1, 1), scorer("C", "D", 6, 6, 9)]);
    assert_eq!(stats.top_scorer_stats.first_name, "C");
    assert_eq!(stats.best_passer_stats.first_name, "C");
    assert_eq!(stats.top_scorer_stats.games, 9);
    assert_eq!(stats.best_passer_stats.games, 9);
}

#[test]
fn no_scorers_is_a_failure() {
    assert_eq!(
        TeamStatsMapper::map_to_team_stats_domain(None, &slogans(), team(vec![])),
        Err(TeamStatsError::NoScorers { team_name: "PSG".to_string() })
    );
    assert_eq!(
        TeamStatsMapper::map_to_team_stats_domain(None, &TeamSlogans::new(), team(vec![])),
        Err(TeamStatsError::NoScorers { team_name: "PSG".to_string() })
    );
}

#[test]
fn no_slogan_is_a_failure() {
    assert_eq!(
        TeamStatsMapper::map_to_team_stats_domain(
            None,
            &TeamSlogans::new(),
            team(vec![scorer("A", "B", 2, 1, 10)])
        ),
        Err(TeamStatsError::UnknownTeam { team_name: "PSG".to_string() })
    );
}

#[test]
fn slogans_are_kept_by_team_name() {
    let mut slogans = TeamSlogans::new();
    assert_eq!(slogans.get("PSG"), None);
    slogans.insert("PSG".to_string(), "Ici".to_string());
    slogans.insert("Real".to_string(), "Hala Madrid".to_string());
    slogans.insert("PSG".to_string(), "Paris est magique".to_string());
    assert_eq!(slogans.get("PSG"), Some(&"Paris est magique".to_string()));
    assert_eq!(slogans.get("Real"), Some(&"Hala Madrid".to_string()));
    assert_eq!(slogans.get("real"), None);
    assert_eq!(slogans.get(""), None);
}
