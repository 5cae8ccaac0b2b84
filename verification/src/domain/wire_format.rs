//! The team record on the wire: a JSON object, its fields and their names.
use crate::domain::team_stats_structs::RawTeam;
use crate::domain::team_stats_structs::Scorer;
use crate::domain::team_stats_structs::TeamScorerRaw;
use crate::error::Cause;
use crate::error::ParseCause;
use crate::json::json_contents;
use crate::json::json_member;
use crate::json::JsonDoc;
use crate::outcomes::all_or_first_error;
use crate::outcomes::lemma_all_ok;
use crate::outcomes::lemma_ok_means_all_ok;
use crate::outcomes::lemma_prefix_failure;
use vstd::prelude::*;

verus! {

/// The names of the fields on the wire.
pub const TEAM_NAME: &'static str = "teamName";

pub const TEAM_SCORE: &'static str = "teamScore";

pub const SCORERS: &'static str = "scorers";

pub const SCORER_FIRST_NAME: &'static str = "scorerFirstName";

pub const SCORER_LAST_NAME: &'static str = "scorerLastName";

pub const GOALS: &'static str = "goals";

pub const GOAL_ASSISTS: &'static str = "goalAssists";

pub const GAMES: &'static str = "games";

/// The member of an object under a key, if the document is an object that
/// has one.
pub open spec fn member(doc: JsonDoc, key: Seq<char>) -> Option<JsonDoc> {
    match doc {
        JsonDoc::Object(fields) => if fields.contains_key(key) {
            Some(fields[key])
        } else {
            None
        },
        _ => None,
    }
}

/// The text under a key: the member has to be there and to be a string.
pub open spec fn text_member(doc: JsonDoc, key: Seq<char>) -> Result<Seq<char>, Cause> {
    match member(doc, key) {
        None => Err(Cause::MissingField(key)),
        Some(JsonDoc::Text(text)) => Ok(text),
        Some(_) => Err(Cause::InvalidField(key)),
    }
}

/// The integer under a key: the member has to be there and to be a number
/// that is an integer of 64 bits.
pub open spec fn integer_member(doc: JsonDoc, key: Seq<char>) -> Result<int, Cause> {
    match member(doc, key) {
        None => Err(Cause::MissingField(key)),
        Some(JsonDoc::Number(Some(number))) => Ok(number as int),
        Some(_) => Err(Cause::InvalidField(key)),
    }
}

/// The count under a key: the member has to be there and to be a number
/// that is an integer of 64 bits and not negative.
pub open spec fn count_member(doc: JsonDoc, key: Seq<char>) -> Result<int, Cause> {
    match member(doc, key) {
        None => Err(Cause::MissingField(key)),
        Some(JsonDoc::Number(Some(number))) => if number >= 0 {
            Ok(number as int)
        } else {
            Err(Cause::InvalidField(key))
        },
        Some(_) => Err(Cause::InvalidField(key)),
    }
}

/// The name under a key: the member has to be there and to be a string
/// that is not empty.
pub open spec fn name_member(doc: JsonDoc, key: Seq<char>) -> Result<Seq<char>, Cause> {
    match member(doc, key) {
        None => Err(Cause::MissingField(key)),
        Some(JsonDoc::Text(text)) => if text.len() > 0 {
            Ok(text)
        } else {
            Err(Cause::InvalidField(key))
        },
        Some(_) => Err(Cause::InvalidField(key)),
    }
}

/// The scorer that a document stands for.
///
/// The document has to be an object, else the field of the scorers is
/// invalid. Its fields are read in the order first name, last name, goals,
/// goal assists, games, and the first that is missing or invalid is the
/// cause of the failure. The names are strings, and goals, goal assists
/// and games are counts: a negative number is invalid. Other members are
/// not looked at.
pub open spec fn decoded_scorer(doc: JsonDoc) -> Result<Scorer, Cause> {
    let first_name = text_member(doc, SCORER_FIRST_NAME@);
    let last_name = text_member(doc, SCORER_LAST_NAME@);
    let goals = count_member(doc, GOALS@);
    let goal_assists = count_member(doc, GOAL_ASSISTS@);
    let games = count_member(doc, GAMES@);
    if !(doc is Object) {
        Err(Cause::InvalidField(SCORERS@))
    } else if first_name is Err {
        Err(first_name->Err_0)
    } else if last_name is Err {
        Err(last_name->Err_0)
    } else if goals is Err {
        Err(goals->Err_0)
    } else if goal_assists is Err {
        Err(goal_assists->Err_0)
    } else if games is Err {
        Err(games->Err_0)
    } else {
        Ok(
            Scorer {
                first_name: first_name->Ok_0,
                last_name: last_name->Ok_0,
                goals: goals->Ok_0,
                goal_assists: goal_assists->Ok_0,
                games: games->Ok_0,
            },
        )
    }
}

/// What each element of an array of scorers stands for.
pub open spec fn decoded_scorers(items: Seq<JsonDoc>) -> Seq<Result<Scorer, Cause>> {
    items.map_values(|item: JsonDoc| decoded_scorer(item))
}

/// The scorers under the key of the scorers: the member has to be there
/// and to be an array, and each element has to be a scorer. The first
/// element that is none gives the cause of the failure.
pub open spec fn scorers_member(doc: JsonDoc) -> Result<Seq<Scorer>, Cause> {
    match member(doc, SCORERS@) {
        None => Err(Cause::MissingField(SCORERS@)),
        Some(JsonDoc::Array(items)) => all_or_first_error(decoded_scorers(items)),
        Some(_) => Err(Cause::InvalidField(SCORERS@)),
    }
}

/// The team record that a document stands for.
///
/// The document has to be an object. Its fields are read in the order team
/// name, team score, scorers, and the first that is missing or invalid is
/// the cause of the failure. The team name is a string that is not empty,
/// the team score any integer of 64 bits. Other members are not looked at.
pub open spec fn decoded_team(doc: JsonDoc) -> Result<RawTeam, Cause> {
    let team_name = name_member(doc, TEAM_NAME@);
    let team_score = integer_member(doc, TEAM_SCORE@);
    let scorers = scorers_member(doc);
    if !(doc is Object) {
        Err(Cause::NotAnObject)
    } else if team_name is Err {
        Err(team_name->Err_0)
    } else if team_score is Err {
        Err(team_score->Err_0)
    } else if scorers is Err {
        Err(scorers->Err_0)
    } else {
        Ok(
            RawTeam {
                team_name: team_name->Ok_0,
                team_score: team_score->Ok_0,
                scorers: scorers->Ok_0,
            },
        )
    }
}

/// Whether a scorer is one of the data model: its goals, goal assists and
/// games are not negative.
pub open spec fn is_scorer(scorer: Scorer) -> bool {
    scorer.goals >= 0 && scorer.goal_assists >= 0 && scorer.games >= 0
}

/// Whether a team record is one of the data model: its name is not empty,
/// and its scorers are scorers of the data model.
pub open spec fn is_team_record(team: RawTeam) -> bool {
    &&& team.team_name.len() > 0
    &&& forall|i: int| 0 <= i < team.scorers.len() ==> is_scorer(#[trigger] team.scorers[i])
}

/// What is read from a document is a team record of the data model: a
/// document with an empty team name or with a negative count is refused.
pub proof fn lemma_decoded_team_is_a_record(doc: JsonDoc)
    requires
        decoded_team(doc) is Ok,
    ensures
        is_team_record(decoded_team(doc)->Ok_0),
{
    let team = decoded_team(doc)->Ok_0;
    let items = member(doc, SCORERS@)->Some_0->Array_0;
    let outcomes = decoded_scorers(items);
    lemma_ok_means_all_ok(outcomes);
    lemma_all_ok(outcomes);
    assert forall|i: int| 0 <= i < team.scorers.len() implies is_scorer(
        #[trigger] team.scorers[i],
    ) by {
        assert(outcomes[i] == decoded_scorer(items[i]));
    }
}

/// The view of each scorer.
pub open spec fn scorer_views(scorers: Seq<TeamScorerRaw>) -> Seq<Scorer> {
    scorers.map_values(|scorer: TeamScorerRaw| scorer@)
}

/// Reads the text under a key of a JSON value.
pub(crate) fn text_field(value: &serde_json::Value, key: &str) -> (field: Result<
    String,
    ParseCause,
>)
    ensures
        match field {
            Ok(text) => text_member(json_contents(*value), key@) == Ok::<Seq<char>, Cause>(text@),
            Err(cause) => text_member(json_contents(*value), key@) == Err::<Seq<char>, Cause>(
                cause@,
            ),
        },
{
    match json_member(value, key) {
        None => Err(ParseCause::MissingField(key.to_owned())),
        Some(found) => match found.as_str() {
            Some(text) => Ok(text.to_owned()),
            None => Err(ParseCause::InvalidField(key.to_owned())),
        },
    }
}

/// Reads the integer under a key of a JSON value.
pub(crate) fn integer_field(value: &serde_json::Value, key: &str) -> (field: Result<
    i64,
    ParseCause,
>)
    ensures
        match field {
            Ok(number) => integer_member(json_contents(*value), key@) == Ok::<int, Cause>(
                number as int,
            ),
            Err(cause) => integer_member(json_contents(*value), key@) == Err::<int, Cause>(cause@),
        },
{
    match json_member(value, key) {
        None => Err(ParseCause::MissingField(key.to_owned())),
        Some(found) => match found.as_i64() {
            Some(number) => Ok(number),
            None => Err(ParseCause::InvalidField(key.to_owned())),
        },
    }
}

/// Reads the count under a key of a JSON value.
pub(crate) fn count_field(value: &serde_json::Value, key: &str) -> (field: Result<
    i64,
    ParseCause,
>)
    ensures
        match field {
            Ok(number) => count_member(json_contents(*value), key@) == Ok::<int, Cause>(
                number as int,
            ),
            Err(cause) => count_member(json_contents(*value), key@) == Err::<int, Cause>(cause@),
        },
{
    match json_member(value, key) {
        None => Err(ParseCause::MissingField(key.to_owned())),
        Some(found) => match found.as_i64() {
            Some(number) => if number >= 0 {
                Ok(number)
            } else {
                Err(ParseCause::InvalidField(key.to_owned()))
            },
            None => Err(ParseCause::InvalidField(key.to_owned())),
        },
    }
}

/// Reads the name under a key of a JSON value.
pub(crate) fn name_field(value: &serde_json::Value, key: &str) -> (field: Result<
    String,
    ParseCause,
>)
    ensures
        match field {
            Ok(text) => name_member(json_contents(*value), key@) == Ok::<Seq<char>, Cause>(text@),
            Err(cause) => name_member(json_contents(*value), key@) == Err::<Seq<char>, Cause>(
                cause@,
            ),
        },
{
    match json_member(value, key) {
        None => Err(ParseCause::MissingField(key.to_owned())),
        Some(found) => match found.as_str() {
            Some(text) => if text.is_empty() {
                Err(ParseCause::InvalidField(key.to_owned()))
            } else {
                Ok(text.to_owned())
            },
            None => Err(ParseCause::InvalidField(key.to_owned())),
        },
    }
}

/// Reads one scorer from a JSON value.
fn decode_scorer(value: &serde_json::Value) -> (scorer: Result<TeamScorerRaw, ParseCause>)
    ensures
        match scorer {
            Ok(read) => decoded_scorer(json_contents(*value)) == Ok::<Scorer, Cause>(read@),
            Err(cause) => decoded_scorer(json_contents(*value)) == Err::<Scorer, Cause>(cause@),
        },
{
    if !value.is_object() {
        return Err(ParseCause::InvalidField(SCORERS.to_owned()));
    }
    let scorer_first_name = match text_field(value, SCORER_FIRST_NAME) {
        Ok(text) => text,
        Err(cause) => {
            return Err(cause);
        },
    };
    let scorer_last_name = match text_field(value, SCORER_LAST_NAME) {
        Ok(text) => text,
        Err(cause) => {
            return Err(cause);
        },
    };
    let goals = match count_field(value, GOALS) {
        Ok(number) => number,
        Err(cause) => {
            return Err(cause);
        },
    };
    let goal_assists = match count_field(value, GOAL_ASSISTS) {
        Ok(number) => number,
        Err(cause) => {
            return Err(cause);
        },
    };
    let games = match count_field(value, GAMES) {
        Ok(number) => number,
        Err(cause) => {
            return Err(cause);
        },
    };
    Ok(TeamScorerRaw { scorer_first_name, scorer_last_name, goals, goal_assists, games })
}

/// Reads the scorers of a team from the JSON value of the team.
pub(crate) fn scorers_field(value: &serde_json::Value) -> (scorers: Result<
    Vec<TeamScorerRaw>,
    ParseCause,
>)
    ensures
        match scorers {
            Ok(read) => scorers_member(json_contents(*value)) == Ok::<Seq<Scorer>, Cause>(
                scorer_views(read@),
            ),
            Err(cause) => scorers_member(json_contents(*value)) == Err::<Seq<Scorer>, Cause>(
                cause@,
            ),
        },
{
    let items = match json_member(value, SCORERS) {
        None => {
            return Err(ParseCause::MissingField(SCORERS.to_owned()));
        },
        Some(found) => match found.as_array() {
            Some(items) => items,
            None => {
                return Err(ParseCause::InvalidField(SCORERS.to_owned()));
            },
        },
    };
    let ghost docs = items@.map_values(|item: serde_json::Value| json_contents(item));
    let mut scorers: Vec<TeamScorerRaw> = Vec::new();
    let mut i: usize = 0;
    assert(decoded_scorers(docs.take(0)) =~= Seq::empty());
    assert(scorer_views(scorers@) =~= Seq::empty());
    while i < items.len()
        invariant
            i <= items.len(),
            docs == items@.map_values(|item: serde_json::Value| json_contents(item)),
            member(json_contents(*value), SCORERS@) == Some(JsonDoc::Array(docs)),
            all_or_first_error(decoded_scorers(docs.take(i as int))) == Ok::<Seq<Scorer>, Cause>(
                scorer_views(scorers@),
            ),
        decreases items.len() - i,
    {
        let ghost before = scorer_views(scorers@);
        proof {
            let upto = decoded_scorers(docs.take(i as int + 1));
            assert(upto.drop_last() =~= decoded_scorers(docs.take(i as int)));
            assert(upto.last() == decoded_scorer(json_contents(items[i as int])));
            lemma_failure_later(docs, i as int);
        }
        match decode_scorer(&items[i]) {
            Ok(scorer) => {
                scorers.push(scorer);
                assert(scorer_views(scorers@) =~= before.push(scorer@));
            },
            Err(cause) => {
                assert(all_or_first_error(decoded_scorers(docs.take(i as int + 1))) == Err::<
                    Seq<Scorer>,
                    Cause,
                >(cause@));
                return Err(cause);
            },
        }
        i = i + 1;
    }
    assert(docs.take(i as int) =~= docs);
    Ok(scorers)
}

/// Where the outcomes up to an element fail, all of them fail alike.
proof fn lemma_failure_later(docs: Seq<JsonDoc>, at: int)
    requires
        0 <= at < docs.len(),
    ensures
        all_or_first_error(decoded_scorers(docs.take(at + 1))) is Err ==> all_or_first_error(
            decoded_scorers(docs),
        ) == all_or_first_error(decoded_scorers(docs.take(at + 1))),
{
    assert(decoded_scorers(docs).take(at + 1) =~= decoded_scorers(docs.take(at + 1)));
    if all_or_first_error(decoded_scorers(docs.take(at + 1))) is Err {
        lemma_prefix_failure(decoded_scorers(docs), at + 1);
    }
}

} // verus!
