//! The failures of the pipeline.
use vstd::prelude::*;
use vstd::string::StringExecFns;

verus! {

/// Why a line is not a team record.
#[derive(Debug, Clone, PartialEq, Eq)]
pub enum ParseCause {
    /// The line is not JSON. The text is the decoder's message.
    Syntax(String),
    /// The line is JSON, but no object.
    NotAnObject,
    /// The record, or one of its scorers, lacks the named field.
    MissingField(String),
    /// The named field holds a value of another kind than the schema
    /// asks for.
    InvalidField(String),
}

/// Why a batch was given up.
#[derive(Debug, Clone, PartialEq, Eq)]
pub enum TeamStatsError {
    /// The input is not UTF-8 text.
    Decoding,
    /// A line is not a team record.
    Parse { line: String, cause: ParseCause },
    /// A team has no scorer, so neither a top scorer nor a best passer.
    NoScorers { team_name: String },
    /// A team has no slogan.
    UnknownTeam { team_name: String },
    /// The table did not take every row. The text is its report.
    Delivery { report: String },
}

/// View of a [`ParseCause`].
pub enum Cause {
    Syntax(Seq<char>),
    NotAnObject,
    MissingField(Seq<char>),
    InvalidField(Seq<char>),
}

/// View of a [`TeamStatsError`].
pub enum Failure {
    Decoding,
    Parse { line: Seq<char>, cause: Cause },
    NoScorers { team_name: Seq<char> },
    UnknownTeam { team_name: Seq<char> },
    Delivery { report: Seq<char> },
}

impl View for ParseCause {
    type V = Cause;

    open spec fn view(&self) -> Cause {
        match self {
            ParseCause::Syntax(message) => Cause::Syntax(message@),
            ParseCause::NotAnObject => Cause::NotAnObject,
            ParseCause::MissingField(field) => Cause::MissingField(field@),
            ParseCause::InvalidField(field) => Cause::InvalidField(field@),
        }
    }
}

impl View for TeamStatsError {
    type V = Failure;

    open spec fn view(&self) -> Failure {
        match self {
            TeamStatsError::Decoding => Failure::Decoding,
            TeamStatsError::Parse { line, cause } => Failure::Parse { line: line@, cause: cause@ },
            TeamStatsError::NoScorers { team_name } => Failure::NoScorers {
                team_name: team_name@,
            },
            TeamStatsError::UnknownTeam { team_name } => Failure::UnknownTeam {
                team_name: team_name@,
            },
            TeamStatsError::Delivery { report } => Failure::Delivery { report: report@ },
        }
    }
}

/// The words of the messages.
pub const NOT_AN_OBJECT: &'static str = "not a JSON object";

pub const MISSING_FIELD: &'static str = "missing field ";

pub const INVALID_FIELD: &'static str = "invalid value of field ";

pub const NOT_UTF8: &'static str = "the input is not UTF-8 text";

pub const NOT_A_RECORD: &'static str = "couldn't deserialize the team stats str to object: ";

pub const IN_LINE: &'static str = " in ";

pub const NO_TOP_SCORER: &'static str = "Top scorer not found for the team ";

pub const NO_SLOGAN: &'static str = "Slogan not found for the team ";

pub const NOT_LOADED: &'static str =
    "Error when trying to load the Team Stats domain data to BigQuery : ";

/// The message of a cause.
pub open spec fn cause_text(cause: Cause) -> Seq<char> {
    match cause {
        Cause::Syntax(message) => message,
        Cause::NotAnObject => NOT_AN_OBJECT@,
        Cause::MissingField(field) => MISSING_FIELD@ + field,
        Cause::InvalidField(field) => INVALID_FIELD@ + field,
    }
}

/// The message of a failure. It holds what the failure holds: the line and
/// the cause, the name of the team, or the report of the table.
pub open spec fn failure_text(failure: Failure) -> Seq<char> {
    match failure {
        Failure::Decoding => NOT_UTF8@,
        Failure::Parse { line, cause } => NOT_A_RECORD@ + cause_text(cause) + IN_LINE@ + line,
        Failure::NoScorers { team_name } => NO_TOP_SCORER@ + team_name,
        Failure::UnknownTeam { team_name } => NO_SLOGAN@ + team_name,
        Failure::Delivery { report } => NOT_LOADED@ + report,
    }
}

impl ParseCause {
    /// The cause in words.
    pub fn message(&self) -> (text: String)
        ensures
            text@ == cause_text(self@),
    {
        match self {
            ParseCause::Syntax(message) => message.clone(),
            ParseCause::NotAnObject => NOT_AN_OBJECT.to_owned(),
            ParseCause::MissingField(field) => MISSING_FIELD.to_owned().concat(field.as_str()),
            ParseCause::InvalidField(field) => INVALID_FIELD.to_owned().concat(field.as_str()),
        }
    }
}

impl TeamStatsError {
    /// The failure in words.
    pub fn message(&self) -> (text: String)
        ensures
            text@ == failure_text(self@),
    {
        match self {
            TeamStatsError::Decoding => NOT_UTF8.to_owned(),
            TeamStatsError::Parse { line, cause } => {
                let mut text = NOT_A_RECORD.to_owned();
                let cause_text = cause.message();
                text.append(cause_text.as_str());
                text.append(IN_LINE);
                text.append(line.as_str());
                text
            },
            TeamStatsError::NoScorers { team_name } => NO_TOP_SCORER.to_owned().concat(
                team_name.as_str(),
            ),
            TeamStatsError::UnknownTeam { team_name } => NO_SLOGAN.to_owned().concat(
                team_name.as_str(),
            ),
            TeamStatsError::Delivery { report } => NOT_LOADED.to_owned().concat(report.as_str()),
        }
    }
}

} // verus!
