//! The envelope every subscriber-facing message is wrapped in: a
//! `status` and `status_code`, and optional `message`, `data` and
//! `errors` fields that are present only when set.

use vstd::prelude::*;
use crate::task::TaskView;

verus! {

/// The subscriber-facing broadcast envelope.
pub struct StandardResponse {
    /// `success`, `failed` or `pending`.
    pub status: String,
    /// A stable machine-readable code, e.g. `result` or
    /// `internal_server_error`.
    pub status_code: String,
    pub message: Option<String>,
    pub data: Option<TaskView>,
    /// Opaque error detail carried through for form errors; never holds
    /// internal error text.
    pub errors: Option<String>,
}

/// Builds the well-formed response envelope; unset optional fields stay
/// absent rather than null.
pub fn build_standard_response(
    status: &str,
    status_code: &str,
    message: Option<&str>,
    data: Option<TaskView>,
    errors: Option<String>,
) -> (r: StandardResponse)
    ensures
        r.status@ == status@,
        r.status_code@ == status_code@,
        match message {
            Some(m) => r.message is Some && r.message->0@ == m@,
            None => r.message is None,
        },
        r.data == data,
        r.errors == errors,
{
    StandardResponse {
        status: status.to_owned(),
        status_code: status_code.to_owned(),
        message: match message {
            Some(m) => Some(m.to_owned()),
            None => None,
        },
        data,
        errors,
    }
}

} // verus!
