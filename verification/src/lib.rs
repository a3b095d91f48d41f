//! A local Move node's rules: execution traces, HTTP answers and session
//! bookkeeping.
pub mod address;
pub mod answer_laws;
pub mod encoding;
pub mod http;
pub mod http_laws;
pub mod json;
pub mod ledger;
pub mod names;
pub mod outcome_laws;
pub mod record_laws;
pub mod request;
pub mod request_laws;
pub mod server;
pub mod session_laws;
pub mod session_wrapper;
pub mod text;
pub mod text_laws;
pub mod trace;
pub mod trace_laws;
pub mod tracer;
pub mod tracer_laws;
pub mod transaction;
pub mod urls;
pub mod value;
pub mod value_laws;
