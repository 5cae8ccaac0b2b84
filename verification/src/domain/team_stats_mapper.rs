//! From the bytes of the input to the teams with their aggregates.
use crate::domain::aggregates::assists_of;
use crate::domain::aggregates::enriched;
use crate::domain::aggregates::first_max;
use crate::domain::aggregates::goals_of;
use crate::domain::aggregates::total_goals;
use crate::domain::team_stats_structs::BestPasserStats;
use crate::domain::team_stats_structs::EnrichedTeam;
use crate::domain::team_stats_structs::RawTeam;
use crate::domain::team_stats_structs::TeamScorerRaw;
use crate::domain::team_stats_structs::TeamStats;
use crate::domain::team_stats_structs::TeamStatsRaw;
use crate::domain::team_stats_structs::TopScorerStats;
use crate::domain::wire_format::decoded_team;
use crate::domain::wire_format::is_team_record;
use crate::domain::wire_format::lemma_decoded_team_is_a_record;
use crate::domain::wire_format::integer_field;
use crate::domain::wire_format::scorers_field;
use crate::domain::wire_format::name_field;
use crate::domain::wire_format::TEAM_NAME;
use crate::domain::wire_format::TEAM_SCORE;
use crate::error::Cause;
use crate::error::Failure;
use crate::error::ParseCause;
use crate::error::TeamStatsError;
use crate::json::json_contents;
use crate::json::json_error_message;
use crate::json::json_parse;
use crate::json::parse_json;
use crate::lines::line_views;
use crate::lines::split_lines;
use crate::lines::text_lines;
use crate::lines::utf8_text;
use crate::outcomes::all_or_first_error;
use crate::outcomes::lemma_all_ok;
use crate::outcomes::lemma_first_error;
use crate::outcomes::lemma_ok_means_all_ok;
use crate::outcomes::lemma_prefix_failure;
use crate::slogans::TeamSlogans;
use vstd::prelude::*;
use vstd::utf8::decode_utf8;
use vstd::utf8::encode_utf8_decode_utf8;
use vstd::utf8::valid_utf8;

verus! {

/// The team record on a line: the line has to be JSON, and the document a
/// team record. A failure keeps the line and the cause.
pub open spec fn parsed_line(line: Seq<char>) -> Result<RawTeam, Failure> {
    match json_parse(line) {
        Err(message) => Err(Failure::Parse { line, cause: Cause::Syntax(message) }),
        Ok(doc) => match decoded_team(doc) {
            Err(cause) => Err(Failure::Parse { line, cause }),
            Ok(team) => Ok(team),
        },
    }
}

/// What becomes of a line: its record is parsed, then enriched.
pub open spec fn line_outcome(
    ingestion_date: Option<time::OffsetDateTime>,
    slogans: Map<Seq<char>, Seq<char>>,
    line: Seq<char>,
) -> Result<EnrichedTeam, Failure> {
    match parsed_line(line) {
        Err(failure) => Err(failure),
        Ok(team) => enriched(ingestion_date, slogans, team),
    }
}

/// What becomes of each line.
pub open spec fn line_outcomes(
    ingestion_date: Option<time::OffsetDateTime>,
    slogans: Map<Seq<char>, Seq<char>>,
    lines: Seq<Seq<char>>,
) -> Seq<Result<EnrichedTeam, Failure>> {
    lines.map_values(|line: Seq<char>| line_outcome(ingestion_date, slogans, line))
}

/// The record parsed on each line.
pub open spec fn parsed_lines(lines: Seq<Seq<char>>) -> Seq<Result<RawTeam, Failure>> {
    lines.map_values(|line: Seq<char>| parsed_line(line))
}

/// The records of an input: the input has to be UTF-8 text, and each of
/// its lines that is not empty a team record. The first line that is none
/// fails the whole.
pub open spec fn parsed_records(bytes: Seq<u8>) -> Result<Seq<RawTeam>, Failure> {
    if !valid_utf8(bytes) {
        Err(Failure::Decoding)
    } else {
        all_or_first_error(parsed_lines(text_lines(decode_utf8(bytes))))
    }
}

/// What becomes of an input: the input has to be UTF-8 text, and each of
/// its lines that is not empty is parsed and enriched, one line after the
/// other. The first line that fails, in parsing or in enriching, fails the
/// whole, and nothing is kept of the lines before it.
pub open spec fn batch_outcome(
    ingestion_date: Option<time::OffsetDateTime>,
    slogans: Map<Seq<char>, Seq<char>>,
    bytes: Seq<u8>,
) -> Result<Seq<EnrichedTeam>, Failure> {
    if !valid_utf8(bytes) {
        Err(Failure::Decoding)
    } else {
        all_or_first_error(
            line_outcomes(ingestion_date, slogans, text_lines(decode_utf8(bytes))),
        )
    }
}

/// The view of each record.
pub open spec fn raw_views(records: Seq<TeamStatsRaw>) -> Seq<RawTeam> {
    records.map_values(|record: TeamStatsRaw| record@)
}

/// The view of each team.
pub open spec fn team_views(teams: Seq<TeamStats>) -> Seq<EnrichedTeam> {
    teams.map_values(|team: TeamStats| team@)
}

/// Whether `result` is what parsing the input `bytes` gives: the records of
/// the input, or its failure.
pub open spec fn parses_to(
    bytes: Seq<u8>,
    result: Result<Vec<TeamStatsRaw>, TeamStatsError>,
) -> bool {
    match result {
        Ok(records) => parsed_records(bytes) == Ok::<Seq<RawTeam>, Failure>(raw_views(records@)),
        Err(error) => parsed_records(bytes) == Err::<Seq<RawTeam>, Failure>(error@),
    }
}

/// The record on a line is one of the data model: a line with an empty
/// team name or with a negative count of goals, goal assists or games is
/// no record.
pub proof fn lemma_parsed_line_is_a_record(line: Seq<char>)
    requires
        parsed_line(line) is Ok,
    ensures
        is_team_record(parsed_line(line)->Ok_0),
{
    lemma_decoded_team_is_a_record(json_parse(line)->Ok_0);
}

/// Parsing an input twice gives the same records, or the same failure.
pub proof fn lemma_parsing_again_gives_the_same(
    bytes: Seq<u8>,
    first: Result<Vec<TeamStatsRaw>, TeamStatsError>,
    second: Result<Vec<TeamStatsRaw>, TeamStatsError>,
)
    requires
        parses_to(bytes, first),
        parses_to(bytes, second),
    ensures
        match (first, second) {
            (Ok(records), Ok(again)) => raw_views(records@) == raw_views(again@),
            (Err(error), Err(again)) => error@ == again@,
            _ => false,
        },
{
}

/// A team without scorers fails the batch with `NoScorers`, and names the
/// team, where every line before it succeeds. Lines after it do not matter,
/// and no team of the lines before it is handed out.
pub proof fn lemma_team_without_scorers_fails_batch(
    ingestion_date: Option<time::OffsetDateTime>,
    slogans: Map<Seq<char>, Seq<char>>,
    bytes: Seq<u8>,
    at: int,
    team: RawTeam,
)
    requires
        valid_utf8(bytes),
        0 <= at < text_lines(decode_utf8(bytes)).len(),
        forall|i: int|
            0 <= i < at ==> line_outcome(
                ingestion_date,
                slogans,
                #[trigger] text_lines(decode_utf8(bytes))[i],
            ) is Ok,
        parsed_line(text_lines(decode_utf8(bytes))[at]) == Ok::<RawTeam, Failure>(team),
        team.scorers.len() == 0,
    ensures
        batch_outcome(ingestion_date, slogans, bytes) == Err::<Seq<EnrichedTeam>, Failure>(
            Failure::NoScorers { team_name: team.team_name },
        ),
{
    let lines = text_lines(decode_utf8(bytes));
    lemma_first_error(line_outcomes(ingestion_date, slogans, lines), at);
}

/// A team with scorers and without slogan fails the batch with
/// `UnknownTeam`, and names the team, where every line before it succeeds.
/// Lines after it do not matter, and no team of the lines before it is
/// handed out.
pub proof fn lemma_team_without_slogan_fails_batch(
    ingestion_date: Option<time::OffsetDateTime>,
    slogans: Map<Seq<char>, Seq<char>>,
    bytes: Seq<u8>,
    at: int,
    team: RawTeam,
)
    requires
        valid_utf8(bytes),
        0 <= at < text_lines(decode_utf8(bytes)).len(),
        forall|i: int|
            0 <= i < at ==> line_outcome(
                ingestion_date,
                slogans,
                #[trigger] text_lines(decode_utf8(bytes))[i],
            ) is Ok,
        parsed_line(text_lines(decode_utf8(bytes))[at]) == Ok::<RawTeam, Failure>(team),
        team.scorers.len() > 0,
        !slogans.contains_key(team.team_name),
    ensures
        batch_outcome(ingestion_date, slogans, bytes) == Err::<Seq<EnrichedTeam>, Failure>(
            Failure::UnknownTeam { team_name: team.team_name },
        ),
{
    let lines = text_lines(decode_utf8(bytes));
    lemma_first_error(line_outcomes(ingestion_date, slogans, lines), at);
}

/// A batch that succeeds hands out one team for each line that is not
/// empty, in the order of the lines.
pub proof fn lemma_batch_keeps_the_order(
    ingestion_date: Option<time::OffsetDateTime>,
    slogans: Map<Seq<char>, Seq<char>>,
    bytes: Seq<u8>,
)
    requires
        batch_outcome(ingestion_date, slogans, bytes) is Ok,
    ensures
        valid_utf8(bytes),
        batch_outcome(ingestion_date, slogans, bytes)->Ok_0.len() == text_lines(
            decode_utf8(bytes),
        ).len(),
        forall|i: int|
            0 <= i < text_lines(decode_utf8(bytes)).len() ==> line_outcome(
                ingestion_date,
                slogans,
                #[trigger] text_lines(decode_utf8(bytes))[i],
            ) == Ok::<EnrichedTeam, Failure>(
                batch_outcome(ingestion_date, slogans, bytes)->Ok_0[i],
            ),
{
    let lines = text_lines(decode_utf8(bytes));
    let outcomes = line_outcomes(ingestion_date, slogans, lines);
    lemma_ok_means_all_ok(outcomes);
    lemma_all_ok(outcomes);
    assert forall|i: int| 0 <= i < lines.len() implies line_outcome(
        ingestion_date,
        slogans,
        #[trigger] lines[i],
    ) == Ok::<EnrichedTeam, Failure>(
        batch_outcome(ingestion_date, slogans, bytes)->Ok_0[i],
    ) by {
        assert(outcomes[i] == line_outcome(ingestion_date, slogans, lines[i]));
    }
}

pub struct TeamStatsMapper;

impl TeamStatsMapper {
    /// Parses the input, line by line, and enriches each record as soon as
    /// it is parsed. The first failure ends the run.
    pub fn map_to_team_stats_domains(
        ingestion_date: Option<time::OffsetDateTime>,
        team_slogans: &TeamSlogans,
        result_file_as_bytes: Vec<u8>,
    ) -> (result: Result<Vec<TeamStats>, TeamStatsError>)
        ensures
            match result {
                Ok(teams) => batch_outcome(ingestion_date, team_slogans@, result_file_as_bytes@)
                    == Ok::<Seq<EnrichedTeam>, Failure>(team_views(teams@)),
                Err(error) => batch_outcome(ingestion_date, team_slogans@, result_file_as_bytes@)
                    == Err::<Seq<EnrichedTeam>, Failure>(error@),
            },
    {
        let text = match utf8_text(result_file_as_bytes.as_slice()) {
            Some(text) => text,
            None => {
                return Err(TeamStatsError::Decoding);
            },
        };
        proof {
            encode_utf8_decode_utf8(text@);
        }
        let lines = split_lines(text);
        let ghost texts = line_views(lines@);
        let mut teams: Vec<TeamStats> = Vec::new();
        let mut i: usize = 0;
        assert(line_outcomes(ingestion_date, team_slogans@, texts.take(0)) =~= Seq::empty());
        assert(team_views(teams@) =~= Seq::empty());
        while i < lines.len()
            invariant
                i <= lines.len(),
                texts == line_views(lines@),
                valid_utf8(result_file_as_bytes@),
                texts == text_lines(decode_utf8(result_file_as_bytes@)),
                all_or_first_error(
                    line_outcomes(ingestion_date, team_slogans@, texts.take(i as int)),
                ) == Ok::<Seq<EnrichedTeam>, Failure>(team_views(teams@)),
            decreases lines.len() - i,
        {
            let ghost before = team_views(teams@);
            let ghost outcomes = line_outcomes(ingestion_date, team_slogans@, texts);
            proof {
                let upto = line_outcomes(ingestion_date, team_slogans@, texts.take(i as int + 1));
                assert(upto.drop_last() =~= line_outcomes(
                    ingestion_date,
                    team_slogans@,
                    texts.take(i as int),
                ));
                assert(upto.last() == line_outcome(
                    ingestion_date,
                    team_slogans@,
                    lines[i as int]@,
                ));
                assert(outcomes.take(i as int + 1) =~= upto);
                if all_or_first_error(upto) is Err {
                    lemma_prefix_failure(outcomes, i as int + 1);
                }
            }
            let team_stats_raw = match Self::deserialize_to_team_stats_raw_object(lines[i]) {
                Ok(team_stats_raw) => team_stats_raw,
                Err(error) => {
                    return Err(error);
                },
            };
            match Self::map_to_team_stats_domain(ingestion_date, team_slogans, team_stats_raw) {
                Ok(team_stats) => {
                    teams.push(team_stats);
                    assert(team_views(teams@) =~= before.push(team_stats@));
                },
                Err(error) => {
                    return Err(error);
                },
            }
            i = i + 1;
        }
        assert(texts.take(i as int) =~= texts);
        Ok(teams)
    }

    /// Parses the input, line by line, into team records. The first line
    /// that is no record ends the run.
    pub fn deserialize_to_team_stats_raw_objects(result_file_as_bytes: &[u8]) -> (result: Result<
        Vec<TeamStatsRaw>,
        TeamStatsError,
    >)
        ensures
            parses_to(result_file_as_bytes@, result),
    {
        let text = match utf8_text(result_file_as_bytes) {
            Some(text) => text,
            None => {
                return Err(TeamStatsError::Decoding);
            },
        };
        proof {
            encode_utf8_decode_utf8(text@);
        }
        let lines = split_lines(text);
        let ghost texts = line_views(lines@);
        let mut records: Vec<TeamStatsRaw> = Vec::new();
        let mut i: usize = 0;
        assert(parsed_lines(texts.take(0)) =~= Seq::empty());
        assert(raw_views(records@) =~= Seq::empty());
        while i < lines.len()
            invariant
                i <= lines.len(),
                texts == line_views(lines@),
                valid_utf8(result_file_as_bytes@),
                texts == text_lines(decode_utf8(result_file_as_bytes@)),
                all_or_first_error(parsed_lines(texts.take(i as int))) == Ok::<
                    Seq<RawTeam>,
                    Failure,
                >(raw_views(records@)),
            decreases lines.len() - i,
        {
            let ghost before = raw_views(records@);
            proof {
                let upto = parsed_lines(texts.take(i as int + 1));
                assert(upto.drop_last() =~= parsed_lines(texts.take(i as int)));
                assert(upto.last() == parsed_line(lines[i as int]@));
                assert(parsed_lines(texts).take(i as int + 1) =~= upto);
                if all_or_first_error(upto) is Err {
                    lemma_prefix_failure(parsed_lines(texts), i as int + 1);
                }
            }
            match Self::deserialize_to_team_stats_raw_object(lines[i]) {
                Ok(team_stats_raw) => {
                    records.push(team_stats_raw);
                    assert(raw_views(records@) =~= before.push(team_stats_raw@));
                },
                Err(error) => {
                    return Err(error);
                },
            }
            i = i + 1;
        }
        assert(texts.take(i as int) =~= texts);
        Ok(records)
    }

    /// Parses one line into a team record.
    pub fn deserialize_to_team_stats_raw_object(team_stats_raw_str: &str) -> (result: Result<
        TeamStatsRaw,
        TeamStatsError,
    >)
        ensures
            match result {
                Ok(record) => parsed_line(team_stats_raw_str@) == Ok::<RawTeam, Failure>(record@),
                Err(error) => parsed_line(team_stats_raw_str@) == Err::<RawTeam, Failure>(error@),
            },
            result matches Ok(record) ==> is_team_record(record@),
    {
        let value = match parse_json(team_stats_raw_str) {
            Ok(value) => value,
            Err(error) => {
                let cause = ParseCause::Syntax(json_error_message(&error));
                return Err(TeamStatsError::Parse { line: team_stats_raw_str.to_owned(), cause });
            },
        };
        match Self::decode_team_stats_raw(&value) {
            Ok(record) => Ok(record),
            Err(cause) => Err(
                TeamStatsError::Parse { line: team_stats_raw_str.to_owned(), cause },
            ),
        }
    }

    /// Reads a team record from a JSON value.
    pub fn decode_team_stats_raw(value: &serde_json::Value) -> (result: Result<
        TeamStatsRaw,
        ParseCause,
    >)
        ensures
            match result {
                Ok(record) => decoded_team(json_contents(*value)) == Ok::<RawTeam, Cause>(record@),
                Err(cause) => decoded_team(json_contents(*value)) == Err::<RawTeam, Cause>(cause@),
            },
            result matches Ok(record) ==> is_team_record(record@),
    {
        proof {
            if decoded_team(json_contents(*value)) is Ok {
                lemma_decoded_team_is_a_record(json_contents(*value));
            }
        }
        if !value.is_object() {
            return Err(ParseCause::NotAnObject);
        }
        let team_name = match name_field(value, TEAM_NAME) {
            Ok(text) => text,
            Err(cause) => {
                return Err(cause);
            },
        };
        let team_score = match integer_field(value, TEAM_SCORE) {
            Ok(number) => number,
            Err(cause) => {
                return Err(cause);
            },
        };
        let scorers = match scorers_field(value) {
            Ok(scorers) => scorers,
            Err(cause) => {
                return Err(cause);
            },
        };
        Ok(TeamStatsRaw { team_name, team_score, scorers })
    }

    /// Computes the aggregates of one team and looks up its slogan. The
    /// record is taken as it is: what it holds is checked where it is read
    /// from a line.
    pub fn map_to_team_stats_domain(
        ingestion_date: Option<time::OffsetDateTime>,
        team_slogans: &TeamSlogans,
        team_stats_raw: TeamStatsRaw,
    ) -> (result: Result<TeamStats, TeamStatsError>)
        ensures
            match result {
                Ok(team_stats) => enriched(ingestion_date, team_slogans@, team_stats_raw@) == Ok::<
                    EnrichedTeam,
                    Failure,
                >(team_stats@),
                Err(error) => enriched(ingestion_date, team_slogans@, team_stats_raw@) == Err::<
                    EnrichedTeam,
                    Failure,
                >(error@),
            },
            result matches Ok(team_stats) ==> team_stats@.team_total_goals == total_goals(
                team_stats_raw@.scorers,
            ),
            team_stats_raw@.scorers.len() == 0 ==> result matches Err(
                TeamStatsError::NoScorers { .. },
            ),
    {
        let team_name = team_stats_raw.team_name;
        let scorers = team_stats_raw.scorers;
        let ghost models = scorers@.map_values(|scorer: TeamScorerRaw| scorer@);
        if scorers.len() == 0 {
            return Err(TeamStatsError::NoScorers { team_name });
        }
        let mut team_total_goals: i128 = 0;
        let mut top: usize = 0;
        let mut best: usize = 0;
        let mut i: usize = 0;
        while i < scorers.len()
            invariant
                0 < scorers.len(),
                i <= scorers.len(),
                models == scorers@.map_values(|scorer: TeamScorerRaw| scorer@),
                team_total_goals == total_goals(models.take(i as int)),
                -0x8000_0000_0000_0000 * i <= team_total_goals <= 0x7fff_ffff_ffff_ffff * i,
                top == first_max(goals_of(models.take(i as int))),
                best == first_max(assists_of(models.take(i as int))),
                i > 0 ==> top < i && best < i,
                i == 0 ==> top == 0 && best == 0,
            decreases scorers.len() - i,
        {
            proof {
                let upto = models.take(i as int + 1);
                assert(upto.drop_last() =~= models.take(i as int));
                assert(upto.last() == scorers[i as int]@);
                assert(goals_of(upto).drop_last() =~= goals_of(models.take(i as int)));
                assert(assists_of(upto).drop_last() =~= assists_of(models.take(i as int)));
                if i > 0 {
                    assert(goals_of(upto)[top as int] == scorers[top as int]@.goals);
                    assert(assists_of(upto)[best as int] == scorers[best as int]@.goal_assists);
                }
            }
            team_total_goals = team_total_goals + scorers[i].goals as i128;
            if i > 0 && scorers[i].goals > scorers[top].goals {
                top = i;
            }
            if i > 0 && scorers[i].goal_assists > scorers[best].goal_assists {
                best = i;
            }
            i = i + 1;
        }
        assert(models.take(i as int) =~= models);
        let top_scorer_stats = TopScorerStats {
            first_name: scorers[top].scorer_first_name.clone(),
            last_name: scorers[top].scorer_last_name.clone(),
            goals: scorers[top].goals,
            games: scorers[top].games,
        };
        let best_passer_stats = BestPasserStats {
            first_name: scorers[best].scorer_first_name.clone(),
            last_name: scorers[best].scorer_last_name.clone(),
            goal_assists: scorers[best].goal_assists,
            games: scorers[best].games,
        };
        let team_slogan = match team_slogans.get(team_name.as_str()) {
            Some(slogan) => slogan.clone(),
            None => {
                return Err(TeamStatsError::UnknownTeam { team_name });
            },
        };
        Ok(
            TeamStats {
                team_name,
                team_score: team_stats_raw.team_score,
                team_total_goals,
                team_slogan,
                top_scorer_stats,
                best_passer_stats,
                ingestion_date,
            },
        )
    }
}

} // verus!
