//! What the service decides around a run: which request starts one, what
//! is done next, what becomes of the table's answer, and how the request is
//! answered.
//!
//! The service itself, the retrieval of the input and the delivery of the
//! rows are not in this library. The service tells [`step`] what happened,
//! and [`step`] tells the service what to do next, until the request is
//! answered.
use crate::domain::team_stats_mapper::batch_outcome;
use crate::domain::team_stats_mapper::team_views;
use crate::domain::team_stats_mapper::TeamStatsMapper;
use crate::domain::team_stats_structs::EnrichedTeam;
use crate::domain::team_stats_structs::TeamStats;
use crate::error::failure_text;
use crate::error::Failure;
use crate::error::TeamStatsError;
use crate::slogans::TeamSlogans;
use crate::team_stats_bq_row_mapper::rows_of;
use crate::team_stats_bq_row_mapper::OutputRow;
use crate::team_stats_bq_row_mapper::TeamStatsBQRowMapper;
use vstd::prelude::*;
use vstd::string::StringSliceAdditionalSpecFns;
use vstd::utf8::encode_utf8_decode_utf8;

verus! {

/// The path of the one request target that starts a run.
pub const BATCH_TARGET: &'static str = "/";

/// The body of the answer to any other request.
pub const NOT_FOUND_BODY: &'static str = "Not the expected URI, no treatment in this case";

/// The body of the answer to a run that loaded its rows.
pub const LOADED_BODY: &'static str = "The Team Stats domain data was correctly loaded to BigQuery";

/// The content type of an answer that states one.
pub const PLAIN_TEXT: &'static str = "text/plain";

/// The target of a request, by its parts: the scheme and the authority
/// where the target names them, the path, and the query where the target
/// has one, be it empty.
#[derive(Debug, Clone, PartialEq, Eq)]
pub struct RequestTarget {
    pub scheme: Option<String>,
    pub authority: Option<String>,
    pub path: String,
    pub query: Option<String>,
}

/// View of a [`RequestTarget`].
pub struct Target {
    pub scheme: Option<Seq<char>>,
    pub authority: Option<Seq<char>>,
    pub path: Seq<char>,
    pub query: Option<Seq<char>>,
}

impl View for RequestTarget {
    type V = Target;

    open spec fn view(&self) -> Target {
        Target {
            scheme: match self.scheme {
                Some(scheme) => Some(scheme@),
                None => None,
            },
            authority: match self.authority {
                Some(authority) => Some(authority@),
                None => None,
            },
            path: self.path@,
            query: match self.query {
                Some(query) => Some(query@),
                None => None,
            },
        }
    }
}

/// Whether a target starts a run: it names neither scheme nor authority,
/// its path is `/`, and it has no query, or an empty one.
pub open spec fn starts_batch(target: Target) -> bool {
    &&& target.scheme is None
    &&& target.authority is None
    &&& target.path == BATCH_TARGET@
    &&& (target.query matches Some(query) ==> query.len() == 0)
}

/// The answer to a request.
#[derive(Debug, Clone, PartialEq, Eq)]
pub enum Reply {
    /// The request does not start a run.
    NotFound,
    /// The run failed. The text says why.
    Failed(String),
    /// The run loaded its rows.
    Loaded,
}

/// View of a [`Reply`].
pub enum Answer {
    NotFound,
    Failed(Seq<char>),
    Loaded,
}

impl View for Reply {
    type V = Answer;

    open spec fn view(&self) -> Answer {
        match self {
            Reply::NotFound => Answer::NotFound,
            Reply::Failed(detail) => Answer::Failed(detail@),
            Reply::Loaded => Answer::Loaded,
        }
    }
}

/// The status code of an answer.
pub open spec fn status_of(answer: Answer) -> int {
    match answer {
        Answer::NotFound => 404,
        Answer::Failed(_) => 500,
        Answer::Loaded => 200,
    }
}

/// The body of an answer.
pub open spec fn body_of(answer: Answer) -> Seq<char> {
    match answer {
        Answer::NotFound => NOT_FOUND_BODY@,
        Answer::Failed(detail) => detail,
        Answer::Loaded => LOADED_BODY@,
    }
}

/// Whether two texts are the same, character by character.
fn same_text(left: &str, right: &str) -> (same: bool)
    ensures
        same == (left@ == right@),
{
    let a = left.as_bytes();
    let b = right.as_bytes();
    proof {
        encode_utf8_decode_utf8(left@);
        encode_utf8_decode_utf8(right@);
    }
    if a.len() != b.len() {
        return false;
    }
    let mut i: usize = 0;
    while i < a.len()
        invariant
            i <= a.len(),
            a.len() == b.len(),
            a@ == left.spec_bytes(),
            b@ == right.spec_bytes(),
            forall|j: int| 0 <= j < i ==> a@[j] == b@[j],
        decreases a.len() - i,
    {
        if a[i] != b[i] {
            return false;
        }
        i = i + 1;
    }
    assert(a@ =~= b@);
    true
}

impl Reply {
    /// The status code: 404 where no run was started, 500 for a run that
    /// failed, 200 for one that loaded its rows.
    pub fn status(&self) -> (code: u16)
        ensures
            code == status_of(self@),
    {
        match self {
            Reply::NotFound => 404,
            Reply::Failed(_) => 500,
            Reply::Loaded => 200,
        }
    }

    /// The body: a fixed text, or the reason of the failure.
    pub fn body(&self) -> (text: String)
        ensures
            text@ == body_of(self@),
    {
        match self {
            Reply::NotFound => NOT_FOUND_BODY.to_owned(),
            Reply::Failed(detail) => detail.clone(),
            Reply::Loaded => LOADED_BODY.to_owned(),
        }
    }

    /// The content type: plain text, except for the answer to a run that
    /// loaded its rows, which states none.
    pub fn content_type(&self) -> (kind: Option<&'static str>)
        ensures
            match kind {
                Some(name) => !(self@ is Loaded) && name@ == PLAIN_TEXT@,
                None => self@ is Loaded,
            },
    {
        match self {
            Reply::Loaded => None,
            _ => Some(PLAIN_TEXT),
        }
    }
}

/// Whether a request starts a run: its target has to be `/`, with no
/// more than an empty query behind it.
pub fn is_batch_request(target: &RequestTarget) -> (run: bool)
    ensures
        run == starts_batch(target@),
{
    let no_query = match &target.query {
        Some(query) => query.as_str().is_empty(),
        None => true,
    };
    target.scheme.is_none() && target.authority.is_none() && same_text(
        target.path.as_str(),
        BATCH_TARGET,
    ) && no_query
}

/// What the table's answer means: without report every row was taken, with
/// a report the delivery failed, whatever the report holds.
pub fn check_delivery(insert_errors: Option<String>) -> (result: Result<(), TeamStatsError>)
    ensures
        match insert_errors {
            None => result is Ok,
            Some(report) => result matches Err(error) && error@ == (Failure::Delivery {
                report: report@,
            }),
        },
{
    match insert_errors {
        None => Ok(()),
        Some(report) => Err(TeamStatsError::Delivery { report }),
    }
}

/// The answer to a run: a run that ended well loaded its rows, any other
/// failed, and the answer carries the reason.
pub fn reply_to(outcome: Result<(), String>) -> (reply: Reply)
    ensures
        match outcome {
            Ok(_) => reply@ == Answer::Loaded,
            Err(detail) => reply@ == Answer::Failed(detail@),
        },
{
    match outcome {
        Ok(_) => Reply::Loaded,
        Err(detail) => Reply::Failed(detail),
    }
}

/// The reason given for an event that does not answer the last action.
pub const OUT_OF_TURN: &'static str = "an event out of turn";

/// Where a run stands.
#[derive(Debug, PartialEq, Eq)]
pub enum Run {
    /// No request has come in.
    Waiting,
    /// The input is being fetched.
    Downloading,
    /// The connection to the table is being opened. The teams of the input,
    /// or its failure, wait for it.
    Connecting(Result<Vec<TeamStats>, TeamStatsError>),
    /// The rows are being sent.
    Inserting,
    /// The request is answered.
    Answered,
}

/// What the service has to do next.
#[derive(Debug, Clone, PartialEq, Eq)]
pub enum Action {
    /// Fetch the input.
    Download,
    /// Open the connection to the table.
    Connect,
    /// Send these rows to the table.
    Insert(Vec<OutputRow>),
    /// Answer the request. Nothing follows.
    Respond(Reply),
}

/// What happened at the service.
#[derive(Debug, Clone, PartialEq, Eq)]
pub enum Event {
    /// A request came in, for this target.
    Request(RequestTarget),
    /// The input was fetched.
    Downloaded(Vec<u8>),
    /// The connection to the table stands.
    Connected,
    /// The table answered, with a report where it did not take every row.
    Inserted(Option<String>),
    /// The last action failed, for this reason.
    Failed(String),
}

/// How far a run has come.
pub open spec fn progress(run: Run) -> nat {
    match run {
        Run::Waiting => 0,
        Run::Downloading => 1,
        Run::Connecting(_) => 2,
        Run::Inserting => 3,
        Run::Answered => 4,
    }
}

/// Whether the action is to answer with the given answer, which ends the
/// run.
pub open spec fn ends_with(next: Run, action: Action, answer: Answer) -> bool {
    &&& next is Answered
    &&& action matches Action::Respond(reply)
    &&& reply@ == answer
}

/// Whether `next` and `action` are what follows from `event` in `run`.
///
/// A request for the batch target starts the download, any other request
/// is not found. The input that was fetched is mapped at once, and its
/// teams or its failure are kept while the connection is opened. Once the
/// connection stands, the failure of the input ends the run, and its teams
/// are sent as rows. The table's answer ends the run: well without report,
/// as a failed delivery with one. An action that failed ends the run with
/// its reason. So does any event that does not answer the last action.
pub open spec fn follows(
    run: Run,
    event: Event,
    ingestion_date: Option<time::OffsetDateTime>,
    slogans: Map<Seq<char>, Seq<char>>,
    next: Run,
    action: Action,
) -> bool {
    match (run, event) {
        (Run::Waiting, Event::Request(target)) => if starts_batch(target@) {
            next is Downloading && action is Download
        } else {
            ends_with(next, action, Answer::NotFound)
        },
        (Run::Downloading, Event::Downloaded(bytes)) => action is Connect && (match next {
            Run::Connecting(Ok(teams)) => batch_outcome(ingestion_date, slogans, bytes@) == Ok::<
                Seq<EnrichedTeam>,
                Failure,
            >(team_views(teams@)),
            Run::Connecting(Err(error)) => batch_outcome(ingestion_date, slogans, bytes@) == Err::<
                Seq<EnrichedTeam>,
                Failure,
            >(error@),
            _ => false,
        }),
        (Run::Connecting(Ok(teams)), Event::Connected) => {
            &&& next is Inserting
            &&& action matches Action::Insert(rows)
            &&& rows@ == rows_of(teams@)
        },
        (Run::Connecting(Err(error)), Event::Connected) => ends_with(
            next,
            action,
            Answer::Failed(failure_text(error@)),
        ),
        (Run::Inserting, Event::Inserted(None)) => ends_with(next, action, Answer::Loaded),
        (Run::Inserting, Event::Inserted(Some(report))) => ends_with(
            next,
            action,
            Answer::Failed(failure_text(Failure::Delivery { report: report@ })),
        ),
        (Run::Downloading, Event::Failed(reason)) => ends_with(
            next,
            action,
            Answer::Failed(reason@),
        ),
        (Run::Connecting(_), Event::Failed(reason)) => ends_with(
            next,
            action,
            Answer::Failed(reason@),
        ),
        (Run::Inserting, Event::Failed(reason)) => ends_with(
            next,
            action,
            Answer::Failed(reason@),
        ),
        _ => ends_with(next, action, Answer::Failed(OUT_OF_TURN@)),
    }
}

/// Every step takes a run forward, and a run ends at the step that answers
/// the request: a run that starts with a request is answered after four
/// steps at most, and once.
pub proof fn lemma_steps_go_forward(
    run: Run,
    event: Event,
    ingestion_date: Option<time::OffsetDateTime>,
    slogans: Map<Seq<char>, Seq<char>>,
    next: Run,
    action: Action,
)
    requires
        follows(run, event, ingestion_date, slogans, next, action),
    ensures
        !(run is Answered) ==> progress(next) > progress(run),
        action is Respond <==> next is Answered,
        progress(next) <= 4,
{
}

/// Says what follows from an event: where the run stands then, and what
/// the service has to do.
pub fn step(
    run: Run,
    event: Event,
    ingestion_date: Option<time::OffsetDateTime>,
    team_slogans: &TeamSlogans,
) -> (result: (Run, Action))
    ensures
        follows(run, event, ingestion_date, team_slogans@, result.0, result.1),
{
    match (run, event) {
        (Run::Waiting, Event::Request(target)) => {
            if is_batch_request(&target) {
                (Run::Downloading, Action::Download)
            } else {
                (Run::Answered, Action::Respond(Reply::NotFound))
            }
        },
        (Run::Downloading, Event::Downloaded(bytes)) => {
            let outcome = TeamStatsMapper::map_to_team_stats_domains(
                ingestion_date,
                team_slogans,
                bytes,
            );
            (Run::Connecting(outcome), Action::Connect)
        },
        (Run::Connecting(Ok(teams)), Event::Connected) => {
            let rows = TeamStatsBQRowMapper::map_to_team_stats_bigquery_rows(teams);
            (Run::Inserting, Action::Insert(rows))
        },
        (Run::Connecting(Err(error)), Event::Connected) => {
            (Run::Answered, Action::Respond(Reply::Failed(error.message())))
        },
        (Run::Inserting, Event::Inserted(insert_errors)) => {
            match check_delivery(insert_errors) {
                Ok(_) => (Run::Answered, Action::Respond(Reply::Loaded)),
                Err(error) => (Run::Answered, Action::Respond(Reply::Failed(error.message()))),
            }
        },
        (Run::Downloading, Event::Failed(reason)) => {
            (Run::Answered, Action::Respond(Reply::Failed(reason)))
        },
        (Run::Connecting(_), Event::Failed(reason)) => {
            (Run::Answered, Action::Respond(Reply::Failed(reason)))
        },
        (Run::Inserting, Event::Failed(reason)) => {
            (Run::Answered, Action::Respond(Reply::Failed(reason)))
        },
        _ => (Run::Answered, Action::Respond(Reply::Failed(OUT_OF_TURN.to_owned()))),
    }
}

} // verus!
