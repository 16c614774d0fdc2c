//! Validation decisions for the upload endpoints. Reading multipart
//! bodies and temp files is the HTTP edge's side; the decisions on the
//! extracted values are taken here.

use vstd::prelude::*;

verus! {

/// Query parameters of the authenticated upload endpoint.
pub struct AuthImageUploadQueryParams {
    pub api_key: String,
}

/// What the upload endpoint handed in, already read off the multipart
/// body: whether each field was present, and the text fields' values.
pub struct UploadFormInput {
    pub task_group: Option<String>,
    pub has_original_image: bool,
    pub country: Option<String>,
}

/// The outcome of validating an upload form.
pub enum UploadFormOutcome {
    /// `task_group` missing: refuse with a field error.
    MissingTaskGroup,
    /// `original_image` missing: refuse with a field error.
    MissingImage,
    /// All required fields present.
    Valid { task_group: String, country: Option<String> },
}

/// Validates the upload form: `task_group` and `original_image` are
/// required, `country` is optional and carried through.
pub fn validate_upload_form(input: &UploadFormInput) -> (r: UploadFormOutcome)
    ensures
        match input.task_group {
            None => r is MissingTaskGroup,
            Some(g) => {
                if !input.has_original_image {
                    r is MissingImage
                } else {
                    r matches UploadFormOutcome::Valid { task_group, country } && task_group@
                        == g@ && crate::task::view_of_opt(country) == crate::task::view_of_opt(
                        input.country,
                    )
                }
            },
        },
{
    let g = match &input.task_group {
        None => {
            return UploadFormOutcome::MissingTaskGroup;
        },
        Some(g) => g,
    };
    if !input.has_original_image {
        return UploadFormOutcome::MissingImage;
    }
    let country = match &input.country {
        Some(c) => Some(c.clone()),
        None => None,
    };
    UploadFormOutcome::Valid { task_group: g.clone(), country }
}

/// The upload size cap: files above sixty megabytes are refused.
pub fn upload_size_ok(size_bytes: u64) -> (r: bool)
    ensures
        r == (size_bytes <= 60 * 1024 * 1024),
{
    size_bytes <= 60 * 1024 * 1024
}

} // verus!
