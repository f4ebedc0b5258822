//! What is asked of the chat service, as values: the request that posts a
//! broadcast, the request that deletes a message, and what the status of
//! an answer means. Sending a request is left to the caller.

use vstd::prelude::*;

verus! {

/// The address under which the rooms of the service are found.
pub const ROOMS_URL: &'static str = "https://api.chatwork.com/v2/rooms/";

/// The part of an address that names the messages of a room.
pub const MESSAGES_PATH: &'static str = "/messages";

/// The header that carries the token.
pub const TOKEN_HEADER: &'static str = "X-ChatWorkToken";

/// The header that names the kind of answer that is wanted.
pub const ACCEPT_HEADER: &'static str = "Accept";

/// The kind of answer that is wanted.
pub const ACCEPT_JSON: &'static str = "application/json";

/// The form field that carries the text of a message.
pub const BODY_FIELD: &'static str = "body";

/// The form field that says whether the message counts as unread for its
/// sender too.
pub const SELF_UNREAD_FIELD: &'static str = "self_unread";

/// The value of that field: the message counts as unread.
pub const SELF_UNREAD: &'static str = "1";

/// The address of the messages of the room `room_id`.
pub open spec fn messages_url(room_id: Seq<char>) -> Seq<char> {
    ROOMS_URL@ + room_id + MESSAGES_PATH@
}

/// The address of the message `message_id` in the room `room_id`.
pub open spec fn message_url(room_id: Seq<char>, message_id: Seq<char>) -> Seq<char> {
    messages_url(room_id) + seq!['/'] + message_id
}

/// Whether an answer with the status `status` reports success.
pub open spec fn reports_success(status: u16) -> bool {
    200 <= status < 300
}

/// Why a request to the service failed.
#[derive(Debug)]
pub enum TransportError {
    /// The request could not be made, or its answer could not be read; the
    /// text says why.
    Failure(String),
    /// The service answered with a status that does not report success.
    Status(u16),
}

/// A failed request as a mathematical value.
pub enum TransportErrorView {
    Failure(Seq<char>),
    Status(u16),
}

impl View for TransportError {
    type V = TransportErrorView;

    open spec fn view(&self) -> TransportErrorView {
        match self {
            TransportError::Failure(cause) => TransportErrorView::Failure(cause@),
            TransportError::Status(status) => TransportErrorView::Status(*status),
        }
    }
}

/// The texts of a list of names with their values.
pub open spec fn pair_texts(pairs: Seq<(String, String)>) -> Seq<(Seq<char>, Seq<char>)> {
    Seq::new(pairs.len(), |i: int| (pairs[i].0@, pairs[i].1@))
}

/// The headers of every request: the token, and that JSON is wanted.
pub open spec fn headers_for(token: Seq<char>) -> Seq<(Seq<char>, Seq<char>)> {
    seq![(TOKEN_HEADER@, token), (ACCEPT_HEADER@, ACCEPT_JSON@)]
}

/// The form of a request that posts `message`: the text, and that it
/// counts as unread for its sender too.
pub open spec fn form_for(message: Seq<char>) -> Seq<(Seq<char>, Seq<char>)> {
    seq![(BODY_FIELD@, message), (SELF_UNREAD_FIELD@, SELF_UNREAD@)]
}

/// A request that posts a message to a room: a POST to `url` with the
/// headers `headers` and the fields `form` as its form.
#[derive(Debug)]
pub struct SendRequest {
    pub url: String,
    pub headers: Vec<(String, String)>,
    pub form: Vec<(String, String)>,
}

/// A request to post as a mathematical value.
pub struct SendRequestView {
    pub url: Seq<char>,
    pub headers: Seq<(Seq<char>, Seq<char>)>,
    pub form: Seq<(Seq<char>, Seq<char>)>,
}

impl View for SendRequest {
    type V = SendRequestView;

    open spec fn view(&self) -> SendRequestView {
        SendRequestView {
            url: self.url@,
            headers: pair_texts(self.headers@),
            form: pair_texts(self.form@),
        }
    }
}

/// A request that deletes a message: a DELETE to `url` with the headers
/// `headers`.
#[derive(Debug)]
pub struct DeleteRequest {
    pub url: String,
    pub headers: Vec<(String, String)>,
}

/// A request to delete as a mathematical value.
pub struct DeleteRequestView {
    pub url: Seq<char>,
    pub headers: Seq<(Seq<char>, Seq<char>)>,
}

impl View for DeleteRequest {
    type V = DeleteRequestView;

    open spec fn view(&self) -> DeleteRequestView {
        DeleteRequestView { url: self.url@, headers: pair_texts(self.headers@) }
    }
}

/// The request that posts `message` to the room `room_id` in the name of
/// `token`.
pub open spec fn send_request_for(
    room_id: Seq<char>,
    token: Seq<char>,
    message: Seq<char>,
) -> SendRequestView {
    SendRequestView {
        url: messages_url(room_id),
        headers: headers_for(token),
        form: form_for(message),
    }
}

/// The request that deletes the message `message_id` from the room
/// `room_id` in the name of `token`.
pub open spec fn delete_request_for(
    room_id: Seq<char>,
    token: Seq<char>,
    message_id: Seq<char>,
) -> DeleteRequestView {
    DeleteRequestView { url: message_url(room_id, message_id), headers: headers_for(token) }
}

/// What the status of the answer to a request to delete means: success
/// from 200 to 299, else the status as the error.
pub open spec fn delete_outcome_for(status: u16) -> Result<(), TransportErrorView> {
    if reports_success(status) {
        Ok(())
    } else {
        Err(TransportErrorView::Status(status))
    }
}

/// The outcome of a request without a result as a mathematical value.
pub open spec fn outcome_view(outcome: Result<(), TransportError>) -> Result<
    (),
    TransportErrorView,
> {
    match outcome {
        Ok(()) => Ok(()),
        Err(error) => Err(error@),
    }
}

/// The headers of a request made in the name of `token`.
fn headers(token: &str) -> (headers: Vec<(String, String)>)
    ensures
        pair_texts(headers@) == headers_for(token@),
{
    let mut headers: Vec<(String, String)> = Vec::new();
    headers.push((String::from_str(TOKEN_HEADER), String::from_str(token)));
    headers.push((String::from_str(ACCEPT_HEADER), String::from_str(ACCEPT_JSON)));
    assert(pair_texts(headers@) =~= headers_for(token@));
    headers
}

/// The request that posts `message` to the room `room_id` in the name of
/// `token`.
pub fn send_request(room_id: &str, token: &str, message: &str) -> (request: SendRequest)
    ensures
        request@ == send_request_for(room_id@, token@, message@),
{
    let mut url = String::from_str(ROOMS_URL);
    url.append(room_id);
    url.append(MESSAGES_PATH);
    let mut form: Vec<(String, String)> = Vec::new();
    form.push((String::from_str(BODY_FIELD), String::from_str(message)));
    form.push((String::from_str(SELF_UNREAD_FIELD), String::from_str(SELF_UNREAD)));
    assert(pair_texts(form@) =~= form_for(message@));
    SendRequest { url, headers: headers(token), form }
}

/// The request that deletes the message `message_id` from the room
/// `room_id` in the name of `token`.
pub fn delete_request(room_id: &str, token: &str, message_id: &str) -> (request: DeleteRequest)
    ensures
        request@ == delete_request_for(room_id@, token@, message_id@),
{
    let mut url = String::from_str(ROOMS_URL);
    url.append(room_id);
    url.append(MESSAGES_PATH);
    proof {
        reveal_strlit("/");
    }
    url.append("/");
    url.append(message_id);
    assert(url@ =~= message_url(room_id@, message_id@));
    DeleteRequest { url, headers: headers(token) }
}

/// Whether an answer with the status `status` reports success.
pub fn is_success(status: u16) -> (success: bool)
    ensures
        success == reports_success(status),
{
    200 <= status && status < 300
}

/// Judges the answer to a request to delete by its status alone.
pub fn delete_outcome(status: u16) -> (outcome: Result<(), TransportError>)
    ensures
        outcome_view(outcome) == delete_outcome_for(status),
{
    if is_success(status) {
        Ok(())
    } else {
        Err(TransportError::Status(status))
    }
}

} // verus!
