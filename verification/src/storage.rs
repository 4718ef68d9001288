//! What the answers of the object service mean.

use vstd::prelude::*;
use vstd::string::StringExecFns;

use crate::text::same_text;

verus! {

/// Why the service did not do what it was asked.
pub enum StoreFailure {
    /// The service refused, with this code.
    Service(String),
    /// The service was not reached, or its answer not understood.
    Other(String),
}

impl StoreFailure {
    /// The code, or the reason.
    pub open spec fn reason(self) -> Seq<char> {
        match self {
            StoreFailure::Service(code) => code@,
            StoreFailure::Other(message) => message@,
        }
    }

    /// Did the service refuse with this code?
    pub open spec fn has_code(self, code: Seq<char>) -> bool {
        self matches StoreFailure::Service(c) && c@ == code
    }
}

/// What is reported of a request for a key that failed.
pub open spec fn failure_text(request: Seq<char>, key: Seq<char>, reason: Seq<char>) -> Seq<char> {
    request + " failed for key "@ + key + ": "@ + reason
}

fn failure(request: &str, key: &str, reason: &str) -> (r: String)
    ensures
        r@ == failure_text(request@, key@, reason@),
{
    let mut r = request.to_owned();
    r.append(" failed for key ");
    r.append(key);
    r.append(": ");
    r.append(reason);
    r
}

/// Was an object written that was only to be written if there was none? The
/// service refuses with `PreconditionFailed` when there is one.
pub fn put_object_if_absent(key: &str, reply: Result<(), StoreFailure>) -> (r: Result<bool, String>)
    ensures
        match reply {
            Ok(_) => r == Ok::<bool, String>(true),
            Err(e) => if e.has_code("PreconditionFailed"@) {
                r == Ok::<bool, String>(false)
            } else {
                r is Err && r->Err_0@ == failure_text("put_object_if_absent"@, key@, e.reason())
            },
        },
{
    match reply {
        Ok(_) => Ok(true),
        Err(StoreFailure::Service(code)) => {
            if same_text(code.as_str(), "PreconditionFailed") {
                Ok(false)
            } else {
                Err(failure("put_object_if_absent", key, code.as_str()))
            }
        },
        Err(StoreFailure::Other(message)) => Err(
            failure("put_object_if_absent", key, message.as_str()),
        ),
    }
}

/// What was read of an object that need not be there. The service refuses
/// with `NoSuchKey` when it is not.
pub fn get_object_optional<T>(key: &str, reply: Result<T, StoreFailure>) -> (r: Result<
    Option<T>,
    String,
>)
    ensures
        match reply {
            Ok(value) => r == Ok::<Option<T>, String>(Some(value)),
            Err(e) => if e.has_code("NoSuchKey"@) {
                r == Ok::<Option<T>, String>(None)
            } else {
                r is Err && r->Err_0@ == failure_text("get_object_optional"@, key@, e.reason())
            },
        },
{
    match reply {
        Ok(value) => Ok(Some(value)),
        Err(StoreFailure::Service(code)) => {
            if same_text(code.as_str(), "NoSuchKey") {
                Ok(None)
            } else {
                Err(failure("get_object_optional", key, code.as_str()))
            }
        },
        Err(StoreFailure::Other(message)) => Err(
            failure("get_object_optional", key, message.as_str()),
        ),
    }
}

/// What is reported of an object that is no encoding of what was expected.
pub fn decode_failure(key: &str, reason: &str) -> (r: String)
    ensures
        r@ == "failed to decode json for key "@ + key@ + ": "@ + reason@,
{
    let mut r = "failed to decode json for key ".to_owned();
    r.append(key);
    r.append(": ");
    r.append(reason);
    r
}

} // verus!
