use vstd::prelude::*;
use crate::json;
use crate::json::spec_encode_user;
use crate::user::User;
use crate::user::UserView;
use crate::user::placeholder_user;
use crate::user::spec_placeholder_user;

verus! {

/// What a handler hands back: a status code, a content type (empty when
/// the response carries no body and so no content-type header) and a body.
pub struct Response {
    pub status: u16,
    pub content_type: String,
    pub body: String,
}

/// The mathematical view of a response.
pub struct ResponseView {
    pub status: u16,
    pub content_type: Seq<char>,
    pub body: Seq<char>,
}

impl View for Response {
    type V = ResponseView;

    open spec fn view(&self) -> ResponseView {
        ResponseView { status: self.status, content_type: self.content_type@, body: self.body@ }
    }
}

/// Listing users: an empty JSON array, whatever came before — nothing is
/// ever stored.
pub open spec fn spec_list_users_response() -> ResponseView {
    ResponseView { status: 200, content_type: "application/json"@, body: "[]"@ }
}

/// Reading one user: the fixed placeholder, whatever the id. The handler
/// deliberately ignores its id, as the route's behaviour is defined.
pub open spec fn spec_get_user_response() -> ResponseView {
    ResponseView {
        status: 200,
        content_type: "application/json"@,
        body: spec_encode_user(spec_placeholder_user()),
    }
}

/// Creating a user: the decoded fields echoed back, created status,
/// nothing stored.
pub open spec fn spec_create_user_response(u: UserView) -> ResponseView {
    ResponseView { status: 201, content_type: "application/json"@, body: spec_encode_user(u) }
}

/// Updating or deleting a user: a bare success with no body and no
/// mutation of anything.
pub open spec fn spec_no_body_ok_response() -> ResponseView {
    ResponseView { status: 200, content_type: Seq::empty(), body: Seq::empty() }
}

/// A framework-style client error: a bare status with no body.
pub open spec fn spec_error_response(status: u16) -> ResponseView {
    ResponseView { status, content_type: Seq::empty(), body: Seq::empty() }
}

/// Returns every stored user. Nothing is ever stored, so the list is
/// always empty.
pub fn get_all_users() -> (r: Response)
    ensures
        r@ == spec_list_users_response(),
{
    Response {
        status: 200,
        content_type: String::from_str("application/json"),
        body: String::from_str("[]"),
    }
}

/// Returns the user with the given id. There is no lookup: the same
/// placeholder user comes back for every id.
pub fn get_user_by_id(_id: i64) -> (r: Response)
    ensures
        r@ == spec_get_user_response(),
{
    let user = placeholder_user();
    Response {
        status: 200,
        content_type: String::from_str("application/json"),
        body: json::encode_user(&user),
    }
}

/// Creates a user: the decoded payload is echoed back and then discarded —
/// there is no storage.
pub fn create_user(user: User) -> (r: Response)
    ensures
        r@ == spec_create_user_response(user@),
{
    Response {
        status: 201,
        content_type: String::from_str("application/json"),
        body: json::encode_user(&user),
    }
}

/// Updates the user with the given id: a bare success, no mutation.
pub fn update_user(_id: i64) -> (r: Response)
    ensures
        r@ == spec_no_body_ok_response(),
{
    Response { status: 200, content_type: String::new(), body: String::new() }
}

/// Deletes the user with the given id: a bare success, no deletion.
pub fn delete_user(_id: i64) -> (r: Response)
    ensures
        r@ == spec_no_body_ok_response(),
{
    Response { status: 200, content_type: String::new(), body: String::new() }
}

/// A framework-style client error response.
pub fn error_response(status: u16) -> (r: Response)
    ensures
        r@ == spec_error_response(status),
{
    Response { status, content_type: String::new(), body: String::new() }
}

} // verus!
