//! The rules that map each request outcome to an HTTP response: a
//! successful listing is a 200 page, a successful add or delete is a 303
//! redirect back to the listing, a malformed body is a 400, and any
//! storage or rendering fault is a 500.

use vstd::prelude::*;
use vstd::string::StringExecFns;
use crate::form::{id_param, parse_id, parse_text, text_param};
use crate::render::{render_index, render_page};
use crate::store::{spec_add, spec_delete, TodoEntry, TodoStore};

verus! {

/// A terminal failure of one request: the pool handed out no connection,
/// the statement did not execute, or the view was not produced.
#[derive(Clone, Copy, PartialEq, Eq, Debug)]
pub enum Fault {
    Connection,
    Query,
    Render,
}

impl Fault {
    /// Every fault surfaces as an internal server error.
    pub fn status_code(&self) -> (s: u16)
        ensures
            s == 500,
    {
        500
    }
}

/// One HTTP response: a status, the optional content type and redirect
/// target, and the body.
pub struct HttpReply {
    pub status: u16,
    pub content_type: Option<String>,
    pub location: Option<String>,
    pub body: String,
}

/// The internal-error response every fault maps to.
fn fault_response() -> (r: HttpReply)
    ensures
        r.status == 500,
        r.content_type is None,
        r.location is None,
        r.body@ == Seq::<char>::empty(),
{
    HttpReply { status: 500, content_type: None, location: None, body: String::new() }
}

/// The client-error response a malformed form body maps to.
pub fn bad_request_response() -> (r: HttpReply)
    ensures
        r.status == 400,
        r.content_type is None,
        r.location is None,
        r.body@ == Seq::<char>::empty(),
{
    HttpReply { status: 400, content_type: None, location: None, body: String::new() }
}

/// The response for a path no route matches.
pub fn not_found_response() -> (r: HttpReply)
    ensures
        r.status == 404,
        r.content_type is None,
        r.location is None,
        r.body@ == Seq::<char>::empty(),
{
    HttpReply { status: 404, content_type: None, location: None, body: String::new() }
}

/// The redirect both mutating operations return on success: see-other,
/// back to the listing.
fn redirect_response() -> (r: HttpReply)
    ensures
        r.status == 303,
        r.content_type is None,
        r.location is Some,
        r.location.unwrap()@ == "/"@,
        r.body@ == Seq::<char>::empty(),
{
    HttpReply {
        status: 303,
        content_type: None,
        location: Some(String::from_str("/")),
        body: String::new(),
    }
}

/// The listing response: a 200 page rendering exactly the fetched
/// entries when the fetch succeeded, a 500 when it faulted.
pub fn index_response(fetched: Result<&Vec<TodoEntry>, Fault>) -> (r: HttpReply)
    ensures
        match fetched {
            Ok(entries) => {
                &&& r.status == 200
                &&& r.content_type is Some
                &&& r.content_type.unwrap()@ == "text/html"@
                &&& r.location is None
                &&& r.body@ == render_page(entries@.map_values(|e: TodoEntry| e@))
            },
            Err(_) => {
                &&& r.status == 500
                &&& r.location is None
                &&& r.body@ == Seq::<char>::empty()
            },
        },
{
    match fetched {
        Ok(entries) => {
            let body = render_index(entries);
            HttpReply {
                status: 200,
                content_type: Some(String::from_str("text/html")),
                location: None,
                body,
            }
        },
        Err(_) => fault_response(),
    }
}

/// The add outcome response: on success a 303 whose location is the
/// listing, on a storage fault a 500.
pub fn add_response(outcome: Result<(), Fault>) -> (r: HttpReply)
    ensures
        match outcome {
            Ok(_) => {
                &&& r.status == 303
                &&& r.location is Some
                &&& r.location.unwrap()@ == "/"@
            },
            Err(_) => {
                &&& r.status == 500
                &&& r.location is None
                &&& r.body@ == Seq::<char>::empty()
            },
        },
{
    match outcome {
        Ok(_) => redirect_response(),
        Err(_) => fault_response(),
    }
}

/// The delete outcome response: on success a 303 whose location is the
/// listing, on a storage fault a 500.
pub fn delete_response(outcome: Result<(), Fault>) -> (r: HttpReply)
    ensures
        match outcome {
            Ok(_) => {
                &&& r.status == 303
                &&& r.location is Some
                &&& r.location.unwrap()@ == "/"@
            },
            Err(_) => {
                &&& r.status == 500
                &&& r.location is None
                &&& r.body@ == Seq::<char>::empty()
            },
        },
{
    match outcome {
        Ok(_) => redirect_response(),
        Err(_) => fault_response(),
    }
}

/// The whole list operation against a store: fetch every entry and
/// render the page.
pub fn handle_index(store: &TodoStore) -> (r: HttpReply)
    ensures
        r.status == 200,
        r.content_type is Some,
        r.content_type.unwrap()@ == "text/html"@,
        r.body@ == render_page(store@.entries),
{
    let entries = store.list();
    index_response(Ok(entries))
}

/// The whole add operation against a store: read the `text` field,
/// append an entry holding it, and redirect back to the listing; a body
/// without a well-formed `text` field changes nothing and is a 400.
pub fn handle_add(store: &mut TodoStore, body: &Vec<u8>) -> (r: HttpReply)
    requires
        old(store).wf(),
        old(store)@.next < i64::MAX,
    ensures
        final(store).wf(),
        match text_param(body@) {
            Some(t) => {
                &&& final(store)@ == spec_add(old(store)@, t)
                &&& r.status == 303
                &&& r.location is Some
                &&& r.location.unwrap()@ == "/"@
            },
            None => {
                &&& final(store)@ == old(store)@
                &&& r.status == 400
            },
        },
{
    match parse_text(body) {
        Some(text) => {
            store.add(text);
            add_response(Ok(()))
        },
        None => bad_request_response(),
    }
}

/// The whole delete operation against a store: read the `id` field,
/// remove the matching entry if any, and redirect back to the listing; a
/// body without a well-formed numeric `id` field changes nothing and is
/// a 400.
pub fn handle_delete(store: &mut TodoStore, body: &Vec<u8>) -> (r: HttpReply)
    requires
        old(store).wf(),
    ensures
        final(store).wf(),
        match id_param(body@) {
            Some(id) => {
                &&& final(store)@ == spec_delete(old(store)@, id)
                &&& r.status == 303
                &&& r.location is Some
                &&& r.location.unwrap()@ == "/"@
            },
            None => {
                &&& final(store)@ == old(store)@
                &&& r.status == 400
            },
        },
{
    match parse_id(body) {
        Some(id) => {
            store.delete(id);
            delete_response(Ok(()))
        },
        None => bad_request_response(),
    }
}

} // verus!
