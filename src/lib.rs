//! A small HTTP/1.1 server core, on bytes: framing and parsing of a request,
//! routing to its handler, and serialisation of the response. Reading from
//! and writing to connections, and files, are left to the caller: `handle`
//! says what a request needs, and `file_response` / `written_response` turn
//! the outcome of a file operation into the answer.

pub mod bytes;
pub mod request;
pub mod response;
pub mod router;
pub mod theorems;

pub use request::{
    body_bytes_missing, header_end, parse_framed, parse_request, Method, Request, RequestError,
};
pub use response::Response;
pub use router::{
    echo, echo_segment, error_response, file_name, file_response, handle, respond, route,
    user_agent, written_response, Action, Route,
};
