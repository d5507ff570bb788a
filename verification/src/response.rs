//! The replies that the service sends back.

use vstd::prelude::*;

verus! {

/// What a request is answered: success with optional data, or the kind of
/// failure that stopped it.
#[derive(Debug, PartialEq)]
pub enum ResponseBody<T> {
    /// The request was carried out; `data` is the payload, if any.
    Success(Option<T>),
    /// The request's content was refused (a bad value or a failed check).
    JsonParseError,
    /// A file that the request needs could not be opened.
    FileError,
    /// A file's content could not be read or converted.
    StrConverError,
    /// The database reported an error, with its message.
    DatabaseRunningError(Option<String>),
    /// The database holds no rows that the request needs.
    DatabaseBuildError,
}

} // verus!
