//! The service facade: what each request is answered with.
//!
//! Every function here is a decision from plain values to a `Response`. The
//! caller owns the transport and the lock around the shared state: it hands
//! in the outcome of taking that lock, and renders the response it gets back.

use crate::document::{lemma_members_view_push, Document, Json};
pub use crate::loader::read_mappings;
use crate::loader::LoadError;
pub use crate::query::Query;
use crate::query::{batch, batch_of, property_of};
use crate::registry::{Registry, Snapshot};
use vstd::prelude::*;

verus! {

/// Status of a request that was answered.
pub const STATUS_OK: u16 = 200;

/// Status of a request for a subject or a property that is not there.
pub const STATUS_NOT_FOUND: u16 = 404;

/// Status of a request that found the shared state out of reach.
pub const STATUS_SERVER_ERROR: u16 = 500;

/// The shared state could not be safely reached, as when its lock is
/// poisoned. It fails the one request that met it and nothing else.
#[derive(Debug, PartialEq, Eq, Structural, Clone, Copy)]
pub struct RegistryUnavailable;

/// Why the service cannot start.
#[derive(Debug, PartialEq, Eq, Structural, Clone, Copy)]
pub enum ConfigError {
    /// No directory to load the registry from was configured.
    MissingRegistryPath,
}

/// The state that the handlers share: the registry and the directory that it
/// is loaded from.
pub struct AppMutState {
    pub mappings: Registry,
    pub registry_path: String,
}

/// The body of a response.
#[derive(Debug, PartialEq, Eq)]
pub enum Body {
    Empty,
    Text(String),
    Json(Document),
}

/// The mathematical value of a response body.
pub enum BodyView {
    Empty,
    Text(Seq<char>),
    Json(Json),
}

impl View for Body {
    type V = BodyView;

    open spec fn view(&self) -> BodyView {
        match self {
            Body::Empty => BodyView::Empty,
            Body::Text(text) => BodyView::Text(text@),
            Body::Json(document) => BodyView::Json(document@),
        }
    }
}

/// An answer to a request: a status code and a body.
#[derive(Debug, PartialEq, Eq)]
pub struct Response {
    pub status: u16,
    pub body: Body,
}

/// The mathematical value of a response.
pub struct ResponseView {
    pub status: int,
    pub body: BodyView,
}

impl View for Response {
    type V = ResponseView;

    open spec fn view(&self) -> ResponseView {
        ResponseView { status: self.status as int, body: self.body@ }
    }
}

/// The answer with an empty body and the given status.
pub open spec fn empty_response(status: int) -> ResponseView {
    ResponseView { status, body: BodyView::Empty }
}

/// The answer to a request that found the shared state out of reach.
pub open spec fn unavailable_response() -> ResponseView {
    empty_response(500)
}

/// The answer that carries `json`.
pub open spec fn json_response(json: Json) -> ResponseView {
    ResponseView { status: 200, body: BodyView::Json(json) }
}

/// The answer to a request for the document of `subject`.
pub open spec fn subject_response(mapping: Map<Seq<char>, Json>, subject: Seq<char>) -> ResponseView {
    if mapping.contains_key(subject) {
        json_response(mapping[subject])
    } else {
        empty_response(404)
    }
}

/// The object that answers a request for one property: the subject under
/// `subject` and the property's value under `name`.
pub open spec fn property_json(subject: Seq<char>, value: Json) -> Json {
    Json::Object(
        Map::<Seq<char>, Json>::empty().insert("name"@, value).insert(
            "subject"@,
            Json::String(subject),
        ),
    )
}

/// The answer to a request for the property `name` of `subject`: not found
/// where the subject is missing, and where its document has no such member.
pub open spec fn property_response(
    mapping: Map<Seq<char>, Json>,
    subject: Seq<char>,
    name: Seq<char>,
) -> ResponseView {
    match property_of(mapping, subject, name) {
        Some(value) => json_response(property_json(subject, value)),
        None => empty_response(404),
    }
}

/// The object that answers a batch query: the answers under `subjects`.
pub open spec fn query_json(answers: Seq<Json>) -> Json {
    Json::Object(Map::<Seq<char>, Json>::empty().insert("subjects"@, Json::Array(answers)))
}

/// The answer to a request to load anew, once the load has run.
pub open spec fn reread_response() -> ResponseView {
    ResponseView { status: 200, body: BodyView::Text("Reread contents"@) }
}

/// The mapping that the shared state holds, or nothing where it is out of
/// reach.
pub open spec fn mapping_of(app_data: Result<&AppMutState, RegistryUnavailable>) -> Option<
    Map<Seq<char>, Json>,
> {
    match app_data {
        Ok(state) => Some(state.mappings@),
        Err(_) => None,
    }
}

impl AppMutState {
    /// The state at start: an empty registry, to be loaded from
    /// `registry_path`.
    pub fn new(registry_path: String) -> (r: AppMutState)
        ensures
            r.mappings@ == Map::<Seq<char>, Json>::empty(),
            r.registry_path == registry_path,
    {
        AppMutState { mappings: Registry::new(), registry_path }
    }

    /// The state at start, given the configured directory if there is one.
    /// Without it there is nothing to serve.
    pub fn configure(registry_path: Option<String>) -> (r: Result<AppMutState, ConfigError>)
        ensures
            match r {
                Ok(state) => registry_path == Some(state.registry_path) && state.mappings@
                    == Map::<Seq<char>, Json>::empty(),
                Err(error) => registry_path is None && error == ConfigError::MissingRegistryPath,
            },
    {
        match registry_path {
            Some(registry_path) => Ok(AppMutState::new(registry_path)),
            None => Err(ConfigError::MissingRegistryPath),
        }
    }
}

fn respond_empty(status: u16) -> (r: Response)
    ensures
        r@ == empty_response(status as int),
{
    Response { status, body: Body::Empty }
}

fn respond_json(document: Document) -> (r: Response)
    ensures
        r@ == json_response(document@),
{
    Response { status: STATUS_OK, body: Body::Json(document) }
}

/// Answers a liveness probe.
pub fn health() -> (r: Response)
    ensures
        r@ == empty_response(200),
{
    respond_empty(STATUS_OK)
}

/// Answers a request for the document of `subject`.
pub fn single_subject(subject: &str, app_data: Result<&AppMutState, RegistryUnavailable>) -> (r:
    Response)
    ensures
        r@ == match mapping_of(app_data) {
            Some(mapping) => subject_response(mapping, subject@),
            None => unavailable_response(),
        },
{
    match app_data {
        Ok(state) => match state.mappings.get(subject) {
            Some(document) => respond_json(document.clone()),
            None => respond_empty(STATUS_NOT_FOUND),
        },
        Err(_) => respond_empty(STATUS_SERVER_ERROR),
    }
}

/// Answers a request for the properties of `subject`: with its whole
/// document, as `single_subject` does.
pub fn all_properties(subject: &str, app_data: Result<&AppMutState, RegistryUnavailable>) -> (r:
    Response)
    ensures
        r@ == match mapping_of(app_data) {
            Some(mapping) => subject_response(mapping, subject@),
            None => unavailable_response(),
        },
{
    single_subject(subject, app_data)
}

/// Answers a request for the property `name` of `subject`.
pub fn some_property(
    subject: &str,
    name: &str,
    app_data: Result<&AppMutState, RegistryUnavailable>,
) -> (r: Response)
    ensures
        r@ == match mapping_of(app_data) {
            Some(mapping) => property_response(mapping, subject@, name@),
            None => unavailable_response(),
        },
{
    let state = match app_data {
        Ok(state) => state,
        Err(_) => {
            return respond_empty(STATUS_SERVER_ERROR);
        },
    };
    let document = match state.mappings.get(subject) {
        Some(document) => document,
        None => {
            return respond_empty(STATUS_NOT_FOUND);
        },
    };
    match document.get(name) {
        Some(value) => {
            let mut entries: Vec<(String, Document)> = Vec::new();
            let value_entry = ("name".to_owned(), value.clone());
            let subject_entry = ("subject".to_owned(), Document::String(subject.to_owned()));
            proof {
                lemma_members_view_push(entries@, value_entry.0, value_entry.1);
                lemma_members_view_push(
                    entries@.push(value_entry),
                    subject_entry.0,
                    subject_entry.1,
                );
            }
            entries.push(value_entry);
            entries.push(subject_entry);
            respond_json(Document::Object(entries))
        },
        None => respond_empty(STATUS_NOT_FOUND),
    }
}

/// Answers a batch query.
pub fn query(payload: &Query, app_data: Result<&AppMutState, RegistryUnavailable>) -> (r: Response)
    ensures
        r@ == match mapping_of(app_data) {
            Some(mapping) => json_response(
                query_json(
                    batch_of(
                        mapping,
                        payload.subjects@,
                        match payload.properties {
                            Some(properties) => Some(properties@),
                            None => None,
                        },
                    ),
                ),
            ),
            None => unavailable_response(),
        },
{
    match app_data {
        Ok(state) => {
            let properties = match &payload.properties {
                Some(properties) => Some(properties),
                None => None,
            };
            let found = batch(&state.mappings, &payload.subjects, properties);
            let mut entries: Vec<(String, Document)> = Vec::new();
            let answers = ("subjects".to_owned(), Document::Array(found));
            proof {
                lemma_members_view_push(entries@, answers.0, answers.1);
            }
            entries.push(answers);
            respond_json(Document::Object(entries))
        },
        Err(_) => respond_empty(STATUS_SERVER_ERROR),
    }
}

/// Publishes the outcome of a load and answers the request that asked for
/// it. A loaded snapshot takes the place of the registry's mapping; a load
/// that failed leaves the mapping as it was. Either way the request is
/// answered as done. Where the shared state is out of reach nothing is
/// published and the request fails.
pub fn reread_mappings(
    app_data: Result<&mut AppMutState, RegistryUnavailable>,
    loaded: Result<Snapshot, LoadError>,
) -> (r: Response)
    ensures
        r@ == if app_data is Ok {
            reread_response()
        } else {
            unavailable_response()
        },
        app_data matches Ok(state) ==> {
            &&& final(state).registry_path == state.registry_path
            &&& final(state).mappings@ == match loaded {
                Ok(snapshot) => snapshot@,
                Err(_) => state.mappings@,
            }
        },
{
    match app_data {
        Ok(state) => {
            match loaded {
                Ok(snapshot) => {
                    state.mappings.replace(snapshot);
                },
                Err(_) => {},
            }
            Response { status: STATUS_OK, body: Body::Text("Reread contents".to_owned()) }
        },
        Err(_) => respond_empty(STATUS_SERVER_ERROR),
    }
}

} // verus!
