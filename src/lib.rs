//! A small blocking HTTP/1.x server library: the request codec, the response
//! encoding, and the route table that sends each request to its handler.

pub mod assoc;
pub mod headers;
pub mod http_request;
pub mod http_response;
pub mod routes;
pub mod text;

pub use headers::HttpHeaders;
pub use http_request::{
    parse_header_line, parse_status_line, DecodeStage, HttpInnerStream, HttpRequest,
    HttpRequestParseError, RequestDecoder,
};
pub use http_response::{HttpResponse, HttpStatus};
pub use routes::RouteTable;
pub use text::decimal;
