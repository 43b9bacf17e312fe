//! The recording records delivered by the upstream listing endpoint, and the
//! orderings and filters the poll engine applies to them.
//!
//! Instants are UTC seconds since the Unix epoch; a recording's duration is
//! held in whole seconds.

use vstd::prelude::*;

verus! {

/// The account that uploaded a recording.
#[derive(Debug, Clone)]
pub struct CreatedBy {
    pub id: String,
    pub username: Option<String>,
}

/// The link set the upstream reports for one recording.
#[derive(Debug, Clone)]
pub struct Urls {
    pub viewer_url: String,
    pub embed_url: Option<String>,
    pub share_settings_url: Option<String>,
    pub download_url: Option<String>,
    pub caption_download_url: Option<String>,
    pub editor_url: Option<String>,
    pub thumbnail_url: String,
}

/// The folder a recording belongs to, as the upstream displays it.
#[derive(Debug, Clone)]
pub struct FolderDetails {
    pub id: String,
    pub name: String,
}

/// One recording as listed by the upstream. `id` is the primary key; the
/// optional `start_time` and the `duration` are in seconds.
#[derive(Debug, Clone)]
pub struct PanoptoSession {
    pub description: Option<String>,
    pub start_time: Option<i64>,
    pub duration: u64,
    pub created_by: CreatedBy,
    pub urls: Urls,
    pub folder: String,
    pub folder_details: FolderDetails,
    pub id: String,
    pub name: String,
}

/// The decoded body of one folder listing.
#[derive(Debug, Clone)]
pub struct PanoptoResponse {
    pub results: Vec<PanoptoSession>,
}

/// Ordering on recordings by start time: a recording without a start time
/// sorts before every recording that has one.
pub open spec fn le_start(a: PanoptoSession, b: PanoptoSession) -> bool {
    match a.start_time {
        None => true,
        Some(x) => match b.start_time {
            None => false,
            Some(y) => x <= y,
        },
    }
}

/// A sequence of recordings in non-decreasing start-time order.
pub open spec fn sorted_by_start(s: Seq<PanoptoSession>) -> bool {
    forall|i: int, j: int| 0 <= i < j < s.len() ==> le_start(#[trigger] s[i], #[trigger] s[j])
}

/// Whether a recording survives the optional cutoff: with no cutoff set every
/// recording passes; with one set, a recording passes only if it has a start
/// time at or after the cutoff.
pub open spec fn passes_cutoff(r: PanoptoSession, filter_since: Option<i64>) -> bool {
    match filter_since {
        None => true,
        Some(cutoff) => match r.start_time {
            None => false,
            Some(start) => start >= cutoff,
        },
    }
}

/// Compares two recordings by start time, executable form of [`le_start`].
pub fn le_start_exec(a: &PanoptoSession, b: &PanoptoSession) -> (r: bool)
    ensures
        r == le_start(*a, *b),
{
    match a.start_time {
        None => true,
        Some(x) => match b.start_time {
            None => false,
            Some(y) => x <= y,
        },
    }
}

} // verus!
