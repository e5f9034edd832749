//! A minimal HTTP/1.1 request-response engine: a parser from the text of a
//! request to a typed request, a router from requests to responses, and a
//! serializer from responses to wire text.

pub mod laws;
pub mod request;
pub mod response;
pub mod router;
pub mod strings;
pub mod text;
