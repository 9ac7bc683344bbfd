//! The pure request/response logic of the HTTP surface: every handler is
//! a function from plain values (fetched rows, a request body, an
//! assigned key) to an exact response. Nothing here performs I/O; the
//! process around the library fetches and persists rows and hands the
//! results in.

use vstd::prelude::*;

use crate::html::{index_page_html, index_page_string, users_fragment_html, users_fragment_string};
use crate::json::{user_json, user_json_string, users_json, users_json_string};
use crate::request::{parse_create, parse_create_user};
use crate::store::Store;
use crate::user::{views, User};

verus! {

/// What kind of body a response carries, for the content type at the
/// transport.
#[derive(Clone, Copy, PartialEq, Eq, Structural, Debug)]
pub enum BodyKind {
    Text,
    Json,
    Html,
}

/// A response as the service decides it: a status code, what kind of
/// body, and the body bytes themselves.
pub struct Response {
    pub status: u16,
    pub kind: BodyKind,
    pub body: String,
}

/// The body of the client-error response to a malformed create request.
pub open spec fn bad_request_json() -> Seq<char> {
    "{\"error\":\"invalid request body\"}"@
}

/// The landing greeting.
pub fn index_response() -> (r: Response)
    ensures
        r.status == 200,
        r.kind == BodyKind::Text,
        r.body@ == "Hello world"@,
{
    Response { status: 200, kind: BodyKind::Text, body: String::from_str("Hello world") }
}

/// The static HTML landing page.
pub fn index_page_response() -> (r: Response)
    ensures
        r.status == 200,
        r.kind == BodyKind::Html,
        r.body@ == index_page_html(),
{
    Response { status: 200, kind: BodyKind::Html, body: index_page_string() }
}

/// The full listing of the given rows as a JSON array, in storage order.
pub fn list_users_response(users: &Vec<User>) -> (r: Response)
    ensures
        r.status == 200,
        r.kind == BodyKind::Json,
        r.body@ == users_json(views(users@)),
{
    Response { status: 200, kind: BodyKind::Json, body: users_json_string(users) }
}

/// The listing of the given rows as an HTML fragment, one row per user.
pub fn users_fragment_response(users: &Vec<User>) -> (r: Response)
    ensures
        r.status == 200,
        r.kind == BodyKind::Html,
        r.body@ == users_fragment_html(views(users@)),
{
    Response { status: 200, kind: BodyKind::Html, body: users_fragment_string(users) }
}

/// The response to a successful create: the row as persisted, carrying
/// the key the store actually assigned.
pub fn created_response(id: u64, username: &str) -> (r: Response)
    ensures
        r.status == 201,
        r.kind == BodyKind::Json,
        r.body@ == user_json(id, username@),
{
    Response { status: 201, kind: BodyKind::Json, body: user_json_string(id, username) }
}

/// The body of the server-error response when storage fails.
pub open spec fn storage_error_json() -> Seq<char> {
    "{\"error\":\"storage error\"}"@
}

/// The response when a query or an insert fails: the one request fails
/// with a server error, the service stays up.
pub fn storage_error_response() -> (r: Response)
    ensures
        r.status == 500,
        r.kind == BodyKind::Json,
        r.body@ == storage_error_json(),
{
    Response {
        status: 500,
        kind: BodyKind::Json,
        body: String::from_str("{\"error\":\"storage error\"}"),
    }
}

/// The response to a create request whose body does not parse.
pub fn bad_request_response() -> (r: Response)
    ensures
        r.status == 400,
        r.kind == BodyKind::Json,
        r.body@ == bad_request_json(),
{
    Response {
        status: 400,
        kind: BodyKind::Json,
        body: String::from_str("{\"error\":\"invalid request body\"}"),
    }
}

/// A valid create payload is visible in the next listing: whatever the
/// table held, a body carrying a username leaves the table — as the
/// create endpoint ensures — with a row appended, and the listing of
/// that table shows a row whose username equals the one the payload
/// carried.
pub proof fn lemma_valid_payload_then_listed(s: Seq<(u64, Seq<char>)>, body: Seq<char>)
    requires
        parse_create(body) is Some,
    ensures
        crate::store::lists_username(
            s.push((((s.len() + 1) as u64), parse_create(body).unwrap())),
            parse_create(body).unwrap(),
        ),
{
    crate::store::lemma_created_user_listed(
        s,
        (s.len() + 1) as u64,
        parse_create(body).unwrap(),
    );
}

impl Store {
    /// The list endpoint: always status 200 with the full listing, an
    /// empty array when the table is empty.
    pub fn handle_list(&self) -> (r: Response)
        ensures
            r.status == 200,
            r.kind == BodyKind::Json,
            r.body@ == users_json(self@),
    {
        list_users_response(self.users())
    }

    /// The fragment endpoint: always status 200 with the listing as HTML.
    pub fn handle_users_fragment(&self) -> (r: Response)
        ensures
            r.status == 200,
            r.kind == BodyKind::Html,
            r.body@ == users_fragment_html(self@),
    {
        users_fragment_response(self.users())
    }

    /// The create endpoint: a body carrying a username appends a row with
    /// the key the store assigns and reports that row back with status
    /// 201; any other body changes nothing and earns status 400. Never
    /// panics, whatever the body holds.
    pub fn handle_create(&mut self, body: &str) -> (r: Response)
        requires
            old(self).wf(),
            old(self)@.len() < u64::MAX,
        ensures
            final(self).wf(),
            parse_create(body@) matches Some(name) ==> {
                &&& r.status == 201
                &&& r.kind == BodyKind::Json
                &&& final(self)@ == old(self)@.push(
                    (((old(self)@.len() + 1) as u64), name),
                )
                &&& r.body@ == user_json((old(self)@.len() + 1) as u64, name)
            },
            parse_create(body@) is None ==> {
                &&& r.status == 400
                &&& r.kind == BodyKind::Json
                &&& final(self)@ == old(self)@
                &&& r.body@ == bad_request_json()
            },
    {
        match parse_create_user(body) {
            Some(name) => {
                let username = name.clone();
                let id = self.insert(name);
                created_response(id, username.as_str())
            },
            None => bad_request_response(),
        }
    }
}

} // verus!
