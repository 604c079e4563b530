//! What is settled before a request is passed on to one of the dictionary
//! and example services: whether its parameters will do, and where it goes.
//! The response of the service is handed back as it came.

pub mod kaikki;
pub mod tatoeba;
pub mod wortschatz_leipzig;

use vstd::prelude::*;
use vstd::string::*;

verus! {

/// The status for a request whose parameters will not do.
pub const BAD_REQUEST: u16 = 400;

/// The status for a service that could not be reached or read.
pub const BAD_GATEWAY: u16 = 502;

/// A request that is not passed on, or whose service failed: the status to
/// answer with, and why.
#[derive(Clone, Debug, PartialEq, Eq)]
pub struct ProxyError {
    pub status: u16,
    pub message: String,
}

/// What a [`ProxyError`] says.
pub struct ProxyErrorView {
    pub status: u16,
    pub message: Seq<char>,
}

impl View for ProxyError {
    type V = ProxyErrorView;

    open spec fn view(&self) -> ProxyErrorView {
        ProxyErrorView { status: self.status, message: self.message@ }
    }
}

/// The refusal of a request whose parameters will not do.
pub open spec fn refusal(message: Seq<char>) -> ProxyErrorView {
    ProxyErrorView { status: BAD_REQUEST, message }
}

/// The failure of a service that could not be reached or read.
pub open spec fn service_failure(message: Seq<char>) -> ProxyErrorView {
    ProxyErrorView { status: BAD_GATEWAY, message }
}

/// Refuses a request whose parameters will not do.
pub fn refuse(message: &str) -> (e: ProxyError)
    ensures
        e@ == refusal(message@),
{
    ProxyError { status: BAD_REQUEST, message: String::from_str(message) }
}

/// Reports a service that could not be reached or read.
pub fn upstream_failure(message: &str) -> (e: ProxyError)
    ensures
        e@ == service_failure(message@),
{
    ProxyError { status: BAD_GATEWAY, message: String::from_str(message) }
}

} // verus!
