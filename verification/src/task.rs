//! The persisted task record and its client-facing serialized view.
//!
//! A record holds paths relative to the media root; the view a client
//! receives carries full public URLs built from a serving host. The
//! store itself (fetch, insert, update) is an external collaborator;
//! this module only models the record and the exact shape of its
//! serialization.

use vstd::prelude::*;
use crate::paths::full_media_url_from_relative_path;

verus! {

/// One background-removal task as the store holds it.
pub struct BackgroundRemoverTask {
    /// Auto-incremented row identifier.
    pub task_id: i64,
    /// Creation time, already rendered to text by the store edge.
    pub date_created: String,
    /// Unique, client-facing task key.
    pub key: String,
    /// Subscription group the task belongs to; the authorization
    /// boundary for dispatch and result visibility.
    pub task_group: String,
    /// Relative path of the uploaded image, e.g. `media/image.jpg`.
    pub original_image_path: String,
    pub preview_original_image_path: Option<String>,
    pub mask_image_path: Option<String>,
    pub processed_image_path: Option<String>,
    pub preview_processed_image_path: Option<String>,
    /// The sole re-dispatch gate: set when the task was handed to the
    /// worker, cleared on a terminal outcome.
    pub processing: bool,
    pub country: Option<String>,
    pub user_identifier: Option<String>,
    /// Opaque log payload carried through unchanged.
    pub logs: Option<String>,
}

/// The serialized, client-facing form of a record: relative paths
/// replaced by full `https` URLs. Fields that only the full (internal)
/// serialization carries are `None` in the public one.
pub struct TaskView {
    pub task_id: Option<i64>,
    pub date_created: String,
    pub key: String,
    pub task_group: String,
    pub original_image: String,
    pub preview_original_image: Option<String>,
    pub processed_image: Option<String>,
    pub preview_processed_image: Option<String>,
    pub mask_image: Option<String>,
    pub processing: bool,
    pub user_identifier: Option<String>,
    pub country: Option<String>,
    pub logs: Option<String>,
}

/// The full URL of a path relative to the media root, under `https`.
pub open spec fn spec_full_url(host: Seq<char>, rel: Seq<char>) -> Seq<char> {
    "https"@ + "://"@ + host + "/"@ + rel
}

/// `spec_full_url` mapped through an optional path.
pub open spec fn spec_full_url_opt(host: Seq<char>, rel: Option<Seq<char>>) -> Option<Seq<char>> {
    match rel {
        Some(r) => Some(spec_full_url(host, r)),
        None => None,
    }
}

pub open spec fn view_of_opt(o: Option<String>) -> Option<Seq<char>> {
    match o {
        Some(s) => Some(s@),
        None => None,
    }
}

fn full_url_opt(host: &str, rel: &Option<String>) -> (r: Option<String>)
    ensures
        view_of_opt(r) == spec_full_url_opt(host@, view_of_opt(*rel)),
{
    match rel {
        Some(p) => Some(full_media_url_from_relative_path("https", host, p.as_str())),
        None => None,
    }
}

impl BackgroundRemoverTask {
    /// Whether a view carries exactly this record's data, serialized
    /// against `host`; `private` says whether the internal-only fields
    /// (`task_id`, `country`, `logs`) are present.
    pub open spec fn spec_view_of(
        self,
        host: Seq<char>,
        v: TaskView,
        private: bool,
    ) -> bool {
        &&& v.task_id == if private {
            Some(self.task_id)
        } else {
            None::<i64>
        }
        &&& v.date_created@ == self.date_created@
        &&& v.key@ == self.key@
        &&& v.task_group@ == self.task_group@
        &&& v.original_image@ == spec_full_url(host, self.original_image_path@)
        &&& view_of_opt(v.preview_original_image) == spec_full_url_opt(
            host,
            view_of_opt(self.preview_original_image_path),
        )
        &&& view_of_opt(v.processed_image) == spec_full_url_opt(
            host,
            view_of_opt(self.processed_image_path),
        )
        &&& view_of_opt(v.preview_processed_image) == spec_full_url_opt(
            host,
            view_of_opt(self.preview_processed_image_path),
        )
        &&& view_of_opt(v.mask_image) == spec_full_url_opt(
            host,
            view_of_opt(self.mask_image_path),
        )
        &&& v.processing == self.processing
        &&& view_of_opt(v.user_identifier) == view_of_opt(self.user_identifier)
        &&& view_of_opt(v.country) == if private {
            view_of_opt(self.country)
        } else {
            None::<Seq<char>>
        }
        &&& view_of_opt(v.logs) == if private {
            view_of_opt(self.logs)
        } else {
            None::<Seq<char>>
        }
    }

    /// The full serialization, internal fields included. May leak the
    /// row count through `task_id`; not for untrusted readers.
    pub fn serialize_full(&self, host: &str) -> (v: TaskView)
        ensures
            self.spec_view_of(host@, v, true),
    {
        TaskView {
            task_id: Some(self.task_id),
            date_created: self.date_created.clone(),
            key: self.key.clone(),
            task_group: self.task_group.clone(),
            original_image: full_media_url_from_relative_path(
                "https",
                host,
                self.original_image_path.as_str(),
            ),
            preview_original_image: full_url_opt(host, &self.preview_original_image_path),
            processed_image: full_url_opt(host, &self.processed_image_path),
            preview_processed_image: full_url_opt(host, &self.preview_processed_image_path),
            mask_image: full_url_opt(host, &self.mask_image_path),
            processing: self.processing,
            user_identifier: self.user_identifier.clone(),
            country: self.country.clone(),
            logs: self.logs.clone(),
        }
    }

    /// The public serialization: as `serialize_full` but without
    /// `task_id`, `country` and `logs`.
    pub fn serialize(&self, host: &str) -> (v: TaskView)
        ensures
            self.spec_view_of(host@, v, false),
    {
        let mut v = self.serialize_full(host);
        v.task_id = None;
        v.country = None;
        v.logs = None;
        v
    }
}

/// The fields needed to insert a new record; the store fills the rest.
pub struct NewBackgroundRemoverTask {
    pub key: String,
    pub task_group: String,
    pub original_image_path: String,
    pub preview_original_image_path: String,
    pub country: Option<String>,
    pub user_identifier: Option<String>,
}

/// The fields a successful processing cycle updates on an existing
/// record, keyed by `key`.
pub struct UpdateBackgroundRemoverTask {
    pub key: String,
    pub mask_image_path: String,
    pub processed_image_path: String,
    pub preview_processed_image_path: String,
    pub logs: Option<String>,
}

} // verus!
