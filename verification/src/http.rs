//! What the server answers, and how it is set up: the replies of the two
//! routes, the headers that every response carries, and the fixed
//! configuration.

use crate::error::EidError;
use crate::record::Person;
use vstd::prelude::*;

verus! {

/// The body of a reply.
#[derive(Clone, Debug, PartialEq, Eq)]
pub enum Body {
    /// An identity record, to be sent as a JSON object of its nine fields.
    Record(Person),
    /// JSON text, to be sent as it is.
    Json(String),
    /// Plain text for a human reader.
    Text(String),
}

/// A reply: the HTTP status and the body.
#[derive(Clone, Debug, PartialEq, Eq)]
pub struct Reply {
    pub status: u16,
    pub body: Body,
}

/// The HTTP status for a failure: 404 where the card is absent or
/// unreadable, 500 for anything else.
pub open spec fn spec_status(error: EidError) -> u16 {
    match error {
        EidError::NoTokenPresent => 404,
        EidError::InvalidToken => 404,
        EidError::InternalError(_) => 500,
    }
}

/// The HTTP status for a failure.
pub fn status(error: EidError) -> (code: u16)
    ensures
        code == spec_status(error),
{
    match error {
        EidError::NoTokenPresent => 404,
        EidError::InvalidToken => 404,
        EidError::InternalError(_) => 500,
    }
}

/// The reply of `GET /eid` to a request with this outcome: 200 with the
/// identity record, or the status and the message of the failure.
pub fn get_eid(outcome: Result<Person, EidError>) -> (reply: Reply)
    ensures
        match outcome {
            Ok(person) => reply.status == 200 && reply.body == Body::Record(person),
            Err(error) => {
                &&& reply.status == spec_status(error)
                &&& reply.body matches Body::Text(text)
                &&& text@ == error.spec_message()
            },
        },
{
    match outcome {
        Ok(person) => Reply { status: 200, body: Body::Record(person) },
        Err(error) => Reply {
            status: status(error),
            body: Body::Text(error.message().to_owned()),
        },
    }
}

/// The JSON text that says the server is up.
pub open spec fn spec_online() -> Seq<char> {
    "{\"online\":true}"@
}

/// The reply of `GET /healthz`: 200, with the JSON text that says the
/// server is up.
pub fn get_healthz() -> (reply: Reply)
    ensures
        reply.status == 200,
        reply.body matches Body::Json(text) && text@ == spec_online(),
{
    Reply { status: 200, body: Body::Json("{\"online\":true}".to_owned()) }
}

/// A header of a response.
#[derive(Clone, Copy, Debug, PartialEq, Eq)]
pub struct Header {
    pub name: &'static str,
    pub value: &'static str,
}

/// The cross-origin policy of the server: every response allows every
/// origin.
#[derive(Clone, Copy, Debug, PartialEq, Eq)]
pub struct CORS;

impl CORS {
    /// The name under which the policy is attached to the server.
    pub fn info(&self) -> (name: &'static str)
        ensures
            name@ == "Add CORS headers to responses"@,
    {
        "Add CORS headers to responses"
    }

    /// The headers that are set on every response.
    pub fn on_response(&self) -> (headers: Vec<Header>)
        ensures
            headers@.len() == 4,
            headers@[0].name@ == "Access-Control-Allow-Origin"@,
            headers@[0].value@ == "*"@,
            headers@[1].name@ == "Access-Control-Allow-Methods"@,
            headers@[1].value@ == "POST, GET, PATCH, OPTIONS"@,
            headers@[2].name@ == "Access-Control-Allow-Headers"@,
            headers@[2].value@ == "*"@,
            headers@[3].name@ == "Access-Control-Allow-Credentials"@,
            headers@[3].value@ == "true"@,
    {
        vec![
            Header { name: "Access-Control-Allow-Origin", value: "*" },
            Header { name: "Access-Control-Allow-Methods", value: "POST, GET, PATCH, OPTIONS" },
            Header { name: "Access-Control-Allow-Headers", value: "*" },
            Header { name: "Access-Control-Allow-Credentials", value: "true" },
        ]
    }
}

/// A route of the server.
#[derive(Clone, Copy, Debug, PartialEq, Eq)]
pub struct Route {
    pub method: &'static str,
    pub path: &'static str,
}

/// How the server is set up.
#[derive(Clone, Debug, PartialEq, Eq)]
pub struct Launch {
    pub port: u16,
    pub address: &'static str,
    pub log_level: &'static str,
    pub base: &'static str,
    pub routes: Vec<Route>,
    pub cors: CORS,
}

/// The server: on all interfaces, port 8099, the two routes under `/`, and
/// the cross-origin policy attached.
pub fn rocket() -> (launch: Launch)
    ensures
        launch.port == 8099,
        launch.address@ == "0.0.0.0"@,
        launch.log_level@ == "debug"@,
        launch.base@ == "/"@,
        launch.routes@.len() == 2,
        launch.routes@[0].method@ == "GET"@,
        launch.routes@[0].path@ == "/eid"@,
        launch.routes@[1].method@ == "GET"@,
        launch.routes@[1].path@ == "/healthz"@,
{
    Launch {
        port: 8099,
        address: "0.0.0.0",
        log_level: "debug",
        base: "/",
        routes: vec![
            Route { method: "GET", path: "/eid" },
            Route { method: "GET", path: "/healthz" },
        ],
        cors: CORS,
    }
}

} // verus!
