//! What the request log records: method labels and the level of a request
//! summary.

use vstd::prelude::*;

use crate::router::Method;

verus! {

/// The canonical upper-case label of a method.
pub open spec fn spec_method_label(m: Method) -> Seq<char> {
    match m {
        Method::Get => "GET"@,
        Method::Post => "POST"@,
        Method::Put => "PUT"@,
        Method::Patch => "PATCH"@,
        Method::Delete => "DELETE"@,
        Method::Head => "HEAD"@,
        Method::Options => "OPTIONS"@,
        Method::Other => "OTHER"@,
    }
}

pub fn method_label(method: Method) -> (r: &'static str)
    ensures
        r@ == spec_method_label(method),
{
    match method {
        Method::Get => "GET",
        Method::Post => "POST",
        Method::Put => "PUT",
        Method::Patch => "PATCH",
        Method::Delete => "DELETE",
        Method::Head => "HEAD",
        Method::Options => "OPTIONS",
        Method::Other => "OTHER",
    }
}

/// The console level of a log record.
#[derive(PartialEq, Eq, Structural, Clone, Copy, Debug)]
pub enum Level {
    Info,
    Warn,
    Error,
}

/// A request summary is a warning when the answer carries an error code,
/// an error when its status is 500 or more without one, else information.
pub fn request_level(status: u16, has_error_code: bool) -> (r: Level)
    ensures
        has_error_code ==> r == Level::Warn,
        !has_error_code && status >= 500 ==> r == Level::Error,
        !has_error_code && status < 500 ==> r == Level::Info,
{
    if has_error_code {
        Level::Warn
    } else if status >= 500 {
        Level::Error
    } else {
        Level::Info
    }
}

} // verus!
