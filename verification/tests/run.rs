use team_stats::error::TeamStatsError;
use team_stats::service::step;
use team_stats::service::Action;
use team_stats::service::Event;
use team_stats::service::Reply;
use team_stats::service::RequestTarget;
use team_stats::service::Run;
use team_stats::slogans::TeamSlogans;

const PSG: &str = "{\"teamName\":\"PSG\",\"teamScore\":3,\"scorers\":[{\"scorerFirstName\":\"A\",\"scorerLastName\":\"B\",\"goals\":2,\"goalAssists\":1,\"games\":10},{\"scorerFirstName\":\"C\",\"scorerLastName\":\"D\",\"goals\":2,\"goalAssists\":3,\"games\":8}]}";

fn slogans() -> TeamSlogans {
    let mut slogans = TeamSlogans::new();
    slogans.insert("PSG".to_string(), "Paris est magique".to_string());
    slogans
}

fn request(path: &str, query: Option<&str>) -> Event {
    Event::Request(RequestTarget {
        scheme: None,
        authority: None,
        path: path.to_string(),
        query: query.map(|query| query.to_string()),
    })
}

fn failed(reason: &str) -> (Run, Action) {
    (Run::Answered, Action::Respond(Reply::Failed(reason.to_string())))
}

#[test]
fn a_run_that_goes_well() {
    let date = Some(time::OffsetDateTime::UNIX_EPOCH);
    let slogans = slogans();
    let (run, action) = step(Run::Waiting, request("/", None), date, &slogans);
    assert_eq!((&run, &action), (&Run::Downloading, &Action::Download));

    let input = format!("{}\n{}\n", PSG, PSG).into_bytes();
    let (run, action) = step(run, Event::Downloaded(input), date, &slogans);
    assert_eq!(action, Action::Connect);
    match &run {
        Run::Connecting(Ok(teams)) => {
            assert_eq!(teams.len(), 2);
            assert_eq!(teams[0].team_total_goals, 4);
            assert_eq!(teams[1].ingestion_date, date);
        }
        other => panic!("unexpected state: {:?}", other),
    }

    let (run, action) = step(run, Event::Connected, date, &slogans);
    assert_eq!(run, Run::Inserting);
    match &action {
        Action::Insert(rows) => {
            assert_eq!(rows.len(), 2);
            assert_eq!(rows[0].insert_id, None);
            assert_eq!(rows[0].json.team_name, "PSG");
            assert_eq!(rows[1].json.team_slogan, "Paris est magique");
        }
        other => panic!("unexpected action: {:?}", other),
    }

    let (run, action) = step(run, Event::Inserted(None), date, &slogans);
    assert_eq!((run, action), (Run::Answered, Action::Respond(Reply::Loaded)));
}

#[test]
fn another_target_starts_nothing() {
    let slogans = slogans();
    for (path, query) in [("", None), ("/index.html", None), ("/", Some("x=1")), ("//", None)] {
        assert_eq!(
            step(Run::Waiting, request(path, query), None, &slogans),
            (Run::Answered, Action::Respond(Reply::NotFound))
        );
    }
    assert_eq!(
        step(Run::Waiting, request("/", Some("")), None, &slogans),
        (Run::Downloading, Action::Download)
    );
}

#[test]
fn the_failure_of_the_input_waits_for_the_connection() {
    let slogans = TeamSlogans::new();
    let (run, action) =
        step(Run::Downloading, Event::Downloaded(PSG.as_bytes().to_vec()), None, &slogans);
    assert_eq!(action, Action::Connect);
    assert_eq!(
        run,
        Run::Connecting(Err(TeamStatsError::UnknownTeam { team_name: "PSG".to_string() }))
    );
    // a connection that fails is reported first
    assert_eq!(
        step(
            Run::Connecting(Err(TeamStatsError::UnknownTeam { team_name: "PSG".to_string() })),
            Event::Failed("no credentials".to_string()),
            None,
            &slogans
        ),
        failed("no credentials")
    );
    assert_eq!(
        step(run, Event::Connected, None, &slogans),
        failed("Slogan not found for the team PSG")
    );
    assert_eq!(
        step(Run::Connecting(Err(TeamStatsError::Decoding)), Event::Connected, None, &slogans),
        failed("the input is not UTF-8 text")
    );
}

#[test]
fn an_input_without_lines_sends_no_rows() {
    let slogans = slogans();
    let (run, _) = step(Run::Downloading, Event::Downloaded(vec![]), None, &slogans);
    assert_eq!(run, Run::Connecting(Ok(vec![])));
    assert_eq!(
        step(run, Event::Connected, None, &slogans),
        (Run::Inserting, Action::Insert(vec![]))
    );
}

#[test]
fn an_action_that_fails_ends_the_run() {
    let slogans = slogans();
    assert_eq!(
        step(Run::Downloading, Event::Failed("no such bucket".to_string()), None, &slogans),
        failed("no such bucket")
    );
    assert_eq!(
        step(Run::Connecting(Ok(vec![])), Event::Failed("denied".to_string()), None, &slogans),
        failed("denied")
    );
    assert_eq!(
        step(Run::Inserting, Event::Failed("timeout".to_string()), None, &slogans),
        failed("timeout")
    );
}

#[test]
fn a_report_of_the_table_ends_the_run_as_a_failure() {
    let slogans = slogans();
    assert_eq!(
        step(Run::Inserting, Event::Inserted(Some("[]".to_string())), None, &slogans),
        failed("Error when trying to load the Team Stats domain data to BigQuery : []")
    );
}

#[test]
fn an_event_out_of_turn_ends_the_run() {
    let slogans = slogans();
    let out_of_turn = || failed("an event out of turn");
    assert_eq!(step(Run::Waiting, Event::Connected, None, &slogans), out_of_turn());
    assert_eq!(step(Run::Waiting, Event::Downloaded(vec![]), None, &slogans), out_of_turn());
    assert_eq!(step(Run::Waiting, Event::Failed("x".to_string()), None, &slogans), out_of_turn());
    assert_eq!(
        step(Run::Downloading, request("/", None), None, &slogans),
        out_of_turn()
    );
    assert_eq!(step(Run::Downloading, Event::Inserted(None), None, &slogans), out_of_turn());
    assert_eq!(
        step(Run::Connecting(Ok(vec![])), Event::Inserted(None), None, &slogans),
        out_of_turn()
    );
    assert_eq!(step(Run::Inserting, Event::Connected, None, &slogans), out_of_turn());
    assert_eq!(step(Run::Answered, Event::Connected, None, &slogans), out_of_turn());
    assert_eq!(
        step(Run::Answered, request("/", None), None, &slogans),
        out_of_turn()
    );
}
