use team_stats::domain::team_stats_mapper::TeamStatsMapper;
use team_stats::domain::team_stats_structs::TeamStats;
use team_stats::error::ParseCause;
use team_stats::error::TeamStatsError;
use team_stats::slogans::TeamSlogans;

const PSG: &str = "{\"teamName\":\"PSG\",\"teamScore\":3,\"scorers\":[{\"scorerFirstName\":\"A\",\"scorerLastName\":\"B\",\"goals\":2,\"goalAssists\":1,\"games\":10},{\"scorerFirstName\":\"C\",\"scorerLastName\":\"D\",\"goals\":2,\"goalAssists\":3,\"games\":8}]}";

const REAL: &str = "{\"teamName\":\"Real\",\"teamScore\":5,\"scorers\":[{\"scorerFirstName\":\"E\",\"scorerLastName\":\"F\",\"goals\":7,\"goalAssists\":0,\"games\":12}]}";

const PSG_WITHOUT_SCORERS: &str = "{\"teamName\":\"PSG\",\"teamScore\":3,\"scorers\":[]}";

fn slogans() -> TeamSlogans {
    let mut slogans = TeamSlogans::new();
    slogans.insert("PSG".to_string(), "Paris est magique".to_string());
    slogans.insert("Real".to_string(), "Hala Madrid".to_string());
    slogans
}

fn run(input: &str) -> Result<Vec<TeamStats>, TeamStatsError> {
    TeamStatsMapper::map_to_team_stats_domains(None, &slogans(), input.as_bytes().to_vec())
}

#[test]
fn scenario_one_team_with_a_tie_for_goals() {
    let mut slogans = TeamSlogans::new();
    slogans.insert("PSG".to_string(), "Paris est magique".to_string());
    let teams =
        TeamStatsMapper::map_to_team_stats_domains(None, &slogans, PSG.as_bytes().to_vec())
            .unwrap();
    assert_eq!(teams.len(), 1);
    let team = &teams[0];
    assert_eq!(team.team_name, "PSG");
    assert_eq!(team.team_score, 3);
    assert_eq!(team.team_total_goals, 4);
    assert_eq!(team.team_slogan, "Paris est magique");
    assert_eq!(team.top_scorer_stats.first_name, "A");
    assert_eq!(team.top_scorer_stats.last_name, "B");
    assert_eq!(team.top_scorer_stats.goals, 2);
    assert_eq!(team.top_scorer_stats.games, 10);
    assert_eq!(team.best_passer_stats.first_name, "C");
    assert_eq!(team.best_passer_stats.last_name, "D");
    assert_eq!(team.best_passer_stats.goal_assists, 3);
    assert_eq!(team.best_passer_stats.games, 8);
    assert_eq!(team.ingestion_date, None);
}

#[test]
fn scenario_no_slogan_at_all() {
    let result = TeamStatsMapper::map_to_team_stats_domains(
        None,
        &TeamSlogans::new(),
        PSG.as_bytes().to_vec(),
    );
    assert_eq!(result, Err(TeamStatsError::UnknownTeam { team_name: "PSG".to_string() }));
}

#[test]
fn scenario_no_scorers() {
    let result = run(PSG_WITHOUT_SCORERS);
    assert_eq!(result, Err(TeamStatsError::NoScorers { team_name: "PSG".to_string() }));
}

#[test]
fn scenario_two_lines_give_two_teams_in_order() {
    let teams = run(&format!("{}\n{}", PSG, REAL)).unwrap();
    assert_eq!(teams.len(), 2);
    assert_eq!(teams[0].team_name, "PSG");
    assert_eq!(teams[1].team_name, "Real");
    assert_eq!(teams[1].team_slogan, "Hala Madrid");
    assert_eq!(teams[1].team_total_goals, 7);

    let swapped = run(&format!("{}\n{}\n", REAL, PSG)).unwrap();
    assert_eq!(swapped.len(), 2);
    assert_eq!(swapped[0].team_name, "Real");
    assert_eq!(swapped[1].team_name, "PSG");
}

#[test]
fn ingestion_date_is_the_same_on_every_team() {
    let date = time::OffsetDateTime::from_unix_timestamp(1_700_000_000).unwrap();
    let teams = TeamStatsMapper::map_to_team_stats_domains(
        Some(date),
        &slogans(),
        format!("{}\n{}", PSG, REAL).into_bytes(),
    )
    .unwrap();
    assert_eq!(teams[0].ingestion_date, Some(date));
    assert_eq!(teams[1].ingestion_date, Some(date));
}

#[test]
fn empty_lines_are_left_out() {
    assert_eq!(run(""), Ok(vec![]));
    assert_eq!(run("\n"), Ok(vec![]));
    assert_eq!(run("\n\n\n"), Ok(vec![]));
    let teams = run(&format!("\n\n{}\n\n\n{}\n\n", PSG, REAL)).unwrap();
    assert_eq!(teams.len(), 2);
    assert_eq!(teams[0].team_name, "PSG");
    assert_eq!(teams[1].team_name, "Real");
}

#[test]
fn a_line_with_a_carriage_return_only_is_no_record() {
    let teams = run(&format!("{}\r\n{}\r\n", PSG, REAL)).unwrap();
    assert_eq!(teams.len(), 2);
    match run(&format!("{}\r\n\r\n", PSG)) {
        Err(TeamStatsError::Parse { line, cause: ParseCause::Syntax(_) }) => {
            assert_eq!(line, "\r")
        }
        other => panic!("unexpected outcome: {:?}", other),
    }
}

#[test]
fn input_that_is_not_utf8_fails_as_a_whole() {
    let mut bytes = PSG.as_bytes().to_vec();
    bytes.push(b'\n');
    bytes.push(0xff);
    assert_eq!(
        TeamStatsMapper::map_to_team_stats_domains(None, &slogans(), bytes),
        Err(TeamStatsError::Decoding)
    );
    // the decoding comes first, before any line is parsed
    let mut bytes = b"not json\n".to_vec();
    bytes.extend_from_slice(&[0xc3, 0x28]);
    assert_eq!(
        TeamStatsMapper::map_to_team_stats_domains(None, &slogans(), bytes),
        Err(TeamStatsError::Decoding)
    );
    // an overlong encoding and a surrogate are no UTF-8 either
    assert_eq!(
        TeamStatsMapper::map_to_team_stats_domains(None, &slogans(), vec![0xc0, 0x8a]),
        Err(TeamStatsError::Decoding)
    );
    assert_eq!(
        TeamStatsMapper::map_to_team_stats_domains(None, &slogans(), vec![0xed, 0xa0, 0x80]),
        Err(TeamStatsError::Decoding)
    );
    // so are a character beyond the last one, a byte that starts nothing,
    // a character that is cut short and a byte that continues nothing
    for bytes in [
        vec![0xf4, 0x90, 0x80, 0x80],
        vec![0xf8, 0x88, 0x80, 0x80, 0x80],
        vec![0xe2, 0x82],
        vec![0x80],
        vec![b'{', b'}', b'\n', 0xc3],
    ] {
        assert_eq!(
            TeamStatsMapper::map_to_team_stats_domains(None, &slogans(), bytes),
            Err(TeamStatsError::Decoding)
        );
    }
    // the greatest character there is, is text
    match TeamStatsMapper::map_to_team_stats_domains(None, &slogans(), vec![0xf4, 0x8f, 0xbf, 0xbf]) {
        Err(TeamStatsError::Parse { line, .. }) => assert_eq!(line, "\u{10ffff}"),
        other => panic!("unexpected outcome: {:?}", other),
    }
}

#[test]
fn a_line_that_is_not_json_fails_with_line_and_message() {
    match run("{\"teamName\":") {
        Err(TeamStatsError::Parse { line, cause: ParseCause::Syntax(message) }) => {
            assert_eq!(line, "{\"teamName\":");
            assert_eq!(message, "EOF while parsing a value at line 1 column 12");
        }
        other => panic!("unexpected outcome: {:?}", other),
    }
    match run(&format!("{}\nnot json\n{}", PSG, REAL)) {
        Err(TeamStatsError::Parse { line, cause: ParseCause::Syntax(message) }) => {
            assert_eq!(line, "not json");
            assert_eq!(message, "expected ident at line 1 column 2");
        }
        other => panic!("unexpected outcome: {:?}", other),
    }
    // two documents on one line are not one document
    match run(&format!("{}{}", PSG, REAL)) {
        Err(TeamStatsError::Parse { cause: ParseCause::Syntax(message), .. }) => {
            assert!(message.starts_with("trailing characters"));
        }
        other => panic!("unexpected outcome: {:?}", other),
    }
}

#[test]
fn the_first_failure_ends_the_batch() {
    let unknown = PSG.replace("PSG", "OM");
    // a team without slogan after a team that succeeds
    assert_eq!(
        run(&format!("{}\n{}\n{}", PSG, unknown, REAL)),
        Err(TeamStatsError::UnknownTeam { team_name: "OM".to_string() })
    );
    // a team without scorers after a team that succeeds
    assert_eq!(
        run(&format!("{}\n{}\n{}", REAL, PSG_WITHOUT_SCORERS, PSG)),
        Err(TeamStatsError::NoScorers { team_name: "PSG".to_string() })
    );
    // the failure of an earlier line wins over that of a later one
    assert_eq!(
        run(&format!("{}\nnot json", unknown)),
        Err(TeamStatsError::UnknownTeam { team_name: "OM".to_string() })
    );
    match run(&format!("not json\n{}", unknown)) {
        Err(TeamStatsError::Parse { line, .. }) => assert_eq!(line, "not json"),
        other => panic!("unexpected outcome: {:?}", other),
    }
    assert_eq!(
        run(&format!("{}\n{}", PSG_WITHOUT_SCORERS, unknown)),
        Err(TeamStatsError::NoScorers { team_name: "PSG".to_string() })
    );
}

#[test]
fn a_negative_count_fails_the_batch_as_a_line_that_is_no_record() {
    let negative = REAL.replace("\"goals\":7", "\"goals\":-1");
    match run(&format!("{}\n{}", PSG, negative)) {
        Err(TeamStatsError::Parse { line, cause }) => {
            assert_eq!(line, negative);
            assert_eq!(cause, ParseCause::InvalidField("goals".to_string()));
        }
        other => panic!("unexpected outcome: {:?}", other),
    }
}

#[test]
fn a_team_without_scorers_and_without_slogan_has_no_scorers() {
    let line = PSG_WITHOUT_SCORERS.replace("PSG", "OM");
    assert_eq!(run(&line), Err(TeamStatsError::NoScorers { team_name: "OM".to_string() }));
}

#[test]
fn team_names_are_compared_letter_by_letter() {
    assert_eq!(
        run(&PSG.replace("PSG", "psg")),
        Err(TeamStatsError::UnknownTeam { team_name: "psg".to_string() })
    );
    assert_eq!(
        run(&PSG.replace("PSG", "PSG ")),
        Err(TeamStatsError::UnknownTeam { team_name: "PSG ".to_string() })
    );
    match run(&PSG.replace("PSG", "")) {
        Err(TeamStatsError::Parse { cause, .. }) => {
            assert_eq!(cause, ParseCause::InvalidField("teamName".to_string()))
        }
        other => panic!("unexpected outcome: {:?}", other),
    }
    let mut slogans = TeamSlogans::new();
    slogans.insert("Bayern München".to_string(), "Mia san mia".to_string());
    let teams = TeamStatsMapper::map_to_team_stats_domains(
        None,
        &slogans,
        PSG.replace("PSG", "Bayern M\\u00fcnchen").into_bytes(),
    )
    .unwrap();
    assert_eq!(teams[0].team_name, "Bayern München");
    assert_eq!(teams[0].team_slogan, "Mia san mia");
    let teams = TeamStatsMapper::map_to_team_stats_domains(
        None,
        &slogans,
        PSG.replace("PSG", "Bayern München").into_bytes(),
    )
    .unwrap();
    assert_eq!(teams[0].team_slogan, "Mia san mia");
}
