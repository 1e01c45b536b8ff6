use vstd::prelude::*;

use crate::bytes::{copy_range, decimal, decimal_bytes, find, find_from, matches_at, occurs_at};
use crate::request::{
    content_length_name, find_header, header_value, pairs_view, parse_request, request_of, Method,
    Request, RequestError, RequestModel,
};
use crate::response::{version_1_1, Response, ResponseModel};

verus! {

/// Which handler serves a request.
#[derive(PartialEq, Eq, Structural, Clone, Copy, Debug)]
pub enum Route {
    Root,
    Echo,
    UserAgent,
    GetFile,
    PostFile,
    NotFound,
}

/// "/"
pub open spec fn root_path() -> Seq<u8> {
    seq![47u8]
}

/// "/echo"
pub open spec fn echo_prefix() -> Seq<u8> {
    seq![47, 101, 99, 104, 111]
}

/// "/user-agent"
pub open spec fn user_agent_path() -> Seq<u8> {
    seq![47, 117, 115, 101, 114, 45, 97, 103, 101, 110, 116]
}

/// "/files"
pub open spec fn files_prefix() -> Seq<u8> {
    seq![47, 102, 105, 108, 101, 115]
}

/// "files/"
pub open spec fn files_segment() -> Seq<u8> {
    seq![102, 105, 108, 101, 115, 47]
}

/// "User-Agent"
pub open spec fn user_agent_name() -> Seq<u8> {
    seq![85, 115, 101, 114, 45, 65, 103, 101, 110, 116]
}

/// "Content-Type"
pub open spec fn content_type_name() -> Seq<u8> {
    seq![67, 111, 110, 116, 101, 110, 116, 45, 84, 121, 112, 101]
}

/// "text/plain"
pub open spec fn text_plain() -> Seq<u8> {
    seq![116, 101, 120, 116, 47, 112, 108, 97, 105, 110]
}

/// "application/octet-stream"
pub open spec fn octet_stream() -> Seq<u8> {
    seq![97, 112, 112, 108, 105, 99, 97, 116, 105, 111, 110, 47, 111, 99, 116, 101, 116, 45, 115, 116, 114, 101, 97, 109]
}

/// The handler for a method and path: the first rule that matches, in the
/// order written.
pub open spec fn route_of(method: Method, path: Seq<u8>) -> Route {
    match method {
        Method::Get => if path == root_path() {
            Route::Root
        } else if occurs_at(path, echo_prefix(), 0) {
            Route::Echo
        } else if path == user_agent_path() {
            Route::UserAgent
        } else if occurs_at(path, files_prefix(), 0) {
            Route::GetFile
        } else {
            Route::NotFound
        },
        Method::Post => if occurs_at(path, files_prefix(), 0) {
            Route::PostFile
        } else {
            Route::NotFound
        },
    }
}

/// Picks the handler for a method and path.
pub fn route(method: Method, path: &[u8]) -> (r: Route)
    ensures
        r == route_of(method, path@),
{
    // "/"
    let root: Vec<u8> = vec![47u8];
    // "/echo"
    let echo: Vec<u8> = vec![47, 101, 99, 104, 111];
    // "/user-agent"
    let ua: Vec<u8> = vec![47, 117, 115, 101, 114, 45, 97, 103, 101, 110, 116];
    // "/files"
    let files: Vec<u8> = vec![47, 102, 105, 108, 101, 115];
    assert(root@ == root_path() && echo@ == echo_prefix() && ua@ == user_agent_path() && files@
        == files_prefix());
    match method {
        Method::Get => {
            if crate::bytes::bytes_eq(path, root.as_slice()) {
                Route::Root
            } else if matches_at(path, echo.as_slice(), 0) {
                Route::Echo
            } else if crate::bytes::bytes_eq(path, ua.as_slice()) {
                Route::UserAgent
            } else if matches_at(path, files.as_slice(), 0) {
                Route::GetFile
            } else {
                Route::NotFound
            }
        },
        Method::Post => {
            if matches_at(path, files.as_slice(), 0) {
                Route::PostFile
            } else {
                Route::NotFound
            }
        },
    }
}

/// "BAD REQUEST"
pub open spec fn bad_request_message() -> Seq<u8> {
    seq![66, 65, 68, 32, 82, 69, 81, 85, 69, 83, 84]
}

/// "CREATED"
pub open spec fn created_message() -> Seq<u8> {
    seq![67, 82, 69, 65, 84, 69, 68]
}

/// "INTERNAL SERVER ERROR"
pub open spec fn server_error_message() -> Seq<u8> {
    seq![73, 78, 84, 69, 82, 78, 65, 76, 32, 83, 69, 82, 86, 69, 82, 32, 69, 82, 82, 79, 82]
}

/// A 200 response that carries `body`, with its type and length.
pub open spec fn content_reply(content_type: Seq<u8>, body: Seq<u8>) -> ResponseModel {
    ResponseModel {
        http_version: version_1_1(),
        status_code: 200,
        status_message: crate::response::ok_message(),
        headers: seq![
            (content_type_name(), content_type),
            (content_length_name(), decimal(body.len())),
        ],
        body,
    }
}

pub open spec fn bad_request() -> ResponseModel {
    crate::response::bare(400, bad_request_message())
}

fn bad_request_response() -> (r: Response)
    ensures
        r@ == bad_request(),
{
    // "BAD REQUEST"
    Response::status(400, vec![66, 65, 68, 32, 82, 69, 81, 85, 69, 83, 84])
}

/// Builds the 200 response that carries `body`.
fn content_response(content_type: Vec<u8>, body: Vec<u8>) -> (r: Response)
    ensures
        r@ == content_reply(content_type@, body@),
{
    let mut r = Response::ok();
    assert(pairs_view(r.headers@).len() == 0);
    let len = decimal_bytes(body.len());
    // "Content-Type"
    let ct_name: Vec<u8> = vec![67, 111, 110, 116, 101, 110, 116, 45, 84, 121, 112, 101];
    // "Content-Length"
    let cl_name: Vec<u8> = vec![67, 111, 110, 116, 101, 110, 116, 45, 76, 101, 110, 103, 116, 104];
    assert(ct_name@ == content_type_name() && cl_name@ == content_length_name());
    r.headers.push((ct_name, content_type));
    r.headers.push((cl_name, len));
    r.body = body;
    assert(r@.headers =~= content_reply(content_type@, body@).headers);
    r
}

pub open spec fn trim_slash_start(s: Seq<u8>) -> Seq<u8>
    decreases s.len(),
{
    if s.len() > 0 && s[0] == 47 {
        trim_slash_start(s.drop_first())
    } else {
        s
    }
}

pub open spec fn trim_slash_end(s: Seq<u8>) -> Seq<u8>
    decreases s.len(),
{
    if s.len() > 0 && s.last() == 47 {
        trim_slash_end(s.drop_last())
    } else {
        s
    }
}

/// What an echo path asks to have sent back: with the slashes at both ends
/// taken off, what follows the first remaining slash.
pub open spec fn echo_text(path: Seq<u8>) -> Option<Seq<u8>> {
    let t = trim_slash_end(trim_slash_start(path));
    match find_from(t, root_path(), 0) {
        Some(i) => Some(t.subrange(i + 1, t.len() as int)),
        None => None,
    }
}

/// The text that an echo path carries.
pub fn echo_segment(path: &[u8]) -> (r: Option<Vec<u8>>)
    ensures
        match r {
            Some(v) => echo_text(path@) == Some(v@),
            None => echo_text(path@) is None,
        },
{
    let n = path.len();
    let mut a: usize = 0;
    assert(path@.subrange(0, n as int) =~= path@);
    while a < n && path[a] == 47
        invariant
            a <= n == path.len(),
            trim_slash_start(path@) == trim_slash_start(path@.subrange(a as int, n as int)),
        decreases n - a,
    {
        assert(path@.subrange(a as int, n as int).drop_first() =~= path@.subrange(a + 1, n as int));
        a = a + 1;
    }
    let mut b: usize = n;
    while b > a && path[b - 1] == 47
        invariant
            a <= b <= n == path.len(),
            trim_slash_end(trim_slash_start(path@)) == trim_slash_end(
                path@.subrange(a as int, b as int),
            ),
        decreases b,
    {
        assert(path@.subrange(a as int, b as int).drop_last() =~= path@.subrange(a as int, b - 1));
        b = b - 1;
    }
    let t = copy_range(path, a, b);
    // "/"
    let slash: Vec<u8> = vec![47u8];
    assert(slash@ == root_path());
    match find(t.as_slice(), slash.as_slice(), 0) {
        Some(i) => Some(copy_range(t.as_slice(), i + 1, t.len())),
        None => None,
    }
}

/// What the echo handler answers.
pub open spec fn echo_reply(q: RequestModel) -> ResponseModel {
    match echo_text(q.path) {
        Some(s) => content_reply(text_plain(), s),
        None => bad_request(),
    }
}

/// Sends back the text after `/echo/` as plain text; a path with nothing
/// after `/echo` is a bad request.
pub fn echo(request: &Request) -> (r: Response)
    ensures
        r@ == echo_reply(request@),
{
    match echo_segment(request.path.as_slice()) {
        // "text/plain"
        Some(s) => content_response(vec![116, 101, 120, 116, 47, 112, 108, 97, 105, 110], s),
        None => bad_request_response(),
    }
}

/// What the user-agent handler answers.
pub open spec fn user_agent_reply(q: RequestModel) -> ResponseModel {
    match header_value(q.headers, user_agent_name()) {
        Some(v) => content_reply(text_plain(), v),
        None => bad_request(),
    }
}

/// Sends back the `User-Agent` header as plain text; a request without one
/// is a bad request.
pub fn user_agent(request: &Request) -> (r: Response)
    ensures
        r@ == user_agent_reply(request@),
{
    // "User-Agent"
    let name: Vec<u8> = vec![85, 115, 101, 114, 45, 65, 103, 101, 110, 116];
    assert(name@ == user_agent_name());
    match find_header(&request.headers, name.as_slice()) {
        Some(i) => {
            let v = &request.headers[i].1;
            let body = copy_range(v.as_slice(), 0, v.len());
            assert(v@.subrange(0, v@.len() as int) =~= v@);
            // "text/plain"
            content_response(vec![116, 101, 120, 116, 47, 112, 108, 97, 105, 110], body)
        },
        None => bad_request_response(),
    }
}

/// The file name that a files path names: what follows its first `files/`.
pub open spec fn file_name_of(path: Seq<u8>) -> Option<Seq<u8>> {
    match find_from(path, files_segment(), 0) {
        Some(i) => Some(path.subrange(i + 6, path.len() as int)),
        None => None,
    }
}

/// The file name that a files path names.
pub fn file_name(path: &[u8]) -> (r: Option<Vec<u8>>)
    ensures
        match r {
            Some(v) => file_name_of(path@) == Some(v@),
            None => file_name_of(path@) is None,
        },
{
    // "files/"
    let seg: Vec<u8> = vec![102, 105, 108, 101, 115, 47];
    assert(seg@ == files_segment() && seg@.len() == 6);
    let found = find(path, seg.as_slice(), 0);
    match found {
        Some(i) => {
            assert(i + 6 <= path.len());
            Some(copy_range(path, i + 6, path.len()))
        },
        None => None,
    }
}

/// The answer to a read of a file: its contents, or 404 when there is no
/// such file.
pub open spec fn file_reply(contents: Option<Seq<u8>>) -> ResponseModel {
    match contents {
        Some(c) => content_reply(octet_stream(), c),
        None => crate::response::bare(404, crate::response::not_found_message()),
    }
}

/// Answers a file read with what was read.
pub fn file_response(contents: Option<Vec<u8>>) -> (r: Response)
    ensures
        r@ == file_reply(
            match contents {
                Some(c) => Some(c@),
                None => None,
            },
        ),
{
    match contents {
        Some(c) => {
            // "application/octet-stream"
            let content_type: Vec<u8> = vec![
                97, 112, 112, 108, 105, 99, 97, 116, 105, 111, 110, 47, 111, 99, 116, 101, 116, 45,
                115, 116, 114, 101, 97, 109,
            ];
            content_response(content_type, c)
        },
        None => Response::not_found(),
    }
}

/// The answer to a file write: 201 once written, else 500.
pub open spec fn written_reply(written: bool) -> ResponseModel {
    if written {
        crate::response::bare(201, created_message())
    } else {
        crate::response::bare(500, server_error_message())
    }
}

/// Answers a file write with whether it succeeded.
pub fn written_response(written: bool) -> (r: Response)
    ensures
        r@ == written_reply(written),
{
    if written {
        // "CREATED"
        Response::status(201, vec![67, 82, 69, 65, 84, 69, 68])
    } else {
        // "INTERNAL SERVER ERROR"
        Response::status(500, vec![73, 78, 84, 69, 82, 78, 65, 76, 32, 83, 69, 82, 86, 69, 82, 32, 69, 82, 82, 79, 82])
    }
}

/// The answer to a request that could not be read.
pub fn error_response(_error: RequestError) -> (r: Response)
    ensures
        r@ == bad_request(),
{
    bad_request_response()
}

/// What serving a request takes: a response to send, or a file to read or
/// write first.
pub enum Action {
    Reply(Response),
    /// Read the named file under the served directory, then answer with
    /// `file_response`.
    ReadFile(Vec<u8>),
    /// Create or overwrite the named file with these bytes, then answer with
    /// `written_response`.
    WriteFile(Vec<u8>, Vec<u8>),
}

pub enum ActionModel {
    Reply(ResponseModel),
    ReadFile(Seq<u8>),
    WriteFile(Seq<u8>, Seq<u8>),
}

impl View for Action {
    type V = ActionModel;

    open spec fn view(&self) -> ActionModel {
        match self {
            Action::Reply(r) => ActionModel::Reply(r@),
            Action::ReadFile(n) => ActionModel::ReadFile(n@),
            Action::WriteFile(n, b) => ActionModel::WriteFile(n@, b@),
        }
    }
}

/// What serving a parsed request takes.
pub open spec fn action_for(q: RequestModel) -> ActionModel {
    match route_of(q.method, q.path) {
        Route::Root => ActionModel::Reply(crate::response::bare(200, crate::response::ok_message())),
        Route::Echo => ActionModel::Reply(echo_reply(q)),
        Route::UserAgent => ActionModel::Reply(user_agent_reply(q)),
        Route::GetFile => match file_name_of(q.path) {
            Some(n) => ActionModel::ReadFile(n),
            None => ActionModel::Reply(bad_request()),
        },
        Route::PostFile => match file_name_of(q.path) {
            Some(n) => ActionModel::WriteFile(n, q.body),
            None => ActionModel::Reply(bad_request()),
        },
        Route::NotFound => ActionModel::Reply(
            crate::response::bare(404, crate::response::not_found_message()),
        ),
    }
}

/// Routes a request to its handler.
pub fn respond(request: &Request) -> (r: Action)
    ensures
        r@ == action_for(request@),
{
    match route(request.method, request.path.as_slice()) {
        Route::Root => Action::Reply(Response::ok()),
        Route::Echo => Action::Reply(echo(request)),
        Route::UserAgent => Action::Reply(user_agent(request)),
        Route::GetFile => match file_name(request.path.as_slice()) {
            Some(n) => Action::ReadFile(n),
            None => Action::Reply(bad_request_response()),
        },
        Route::PostFile => match file_name(request.path.as_slice()) {
            Some(n) => {
                let body = copy_range(request.body.as_slice(), 0, request.body.len());
                assert(request.body@.subrange(0, request.body@.len() as int) =~= request.body@);
                Action::WriteFile(n, body)
            },
            None => Action::Reply(bad_request_response()),
        },
        Route::NotFound => Action::Reply(Response::not_found()),
    }
}

/// What serving the bytes read from a connection takes.
pub open spec fn connection_action(data: Seq<u8>) -> ActionModel {
    match request_of(data) {
        Ok(q) => action_for(q),
        Err(_) => ActionModel::Reply(bad_request()),
    }
}

/// Serves the bytes read from one connection: a request that cannot be read
/// gets a 400 response.
pub fn handle(data: &[u8]) -> (r: Action)
    ensures
        r@ == connection_action(data@),
{
    match parse_request(data) {
        Ok(q) => respond(&q),
        Err(e) => Action::Reply(error_response(e)),
    }
}

} // verus!
