//! The URLs the bridge computes: the per-folder listing endpoint, the folder
//! page linked from an announcement, and the webhook address with its
//! delivery-acknowledgement flag.

use vstd::prelude::*;
use vstd::string::StringExecFns;

verus! {

/// The listing endpoint for one folder, newest first.
pub open spec fn spec_listing_url(base: Seq<char>, folder_id: Seq<char>) -> Seq<char> {
    base + "Panopto/api/v1/folders/"@ + folder_id
        + "/sessions?sortField=CreatedDate&sortOrder=Desc"@
}

/// The upstream page that lists one folder, linked as the announcement's
/// author URL.
pub open spec fn spec_folder_url(base: Seq<char>, folder_id: Seq<char>) -> Seq<char> {
    base + "Panopto/Pages/Sessions/List.aspx#folderID=%22"@ + folder_id + "%22"@
}

/// A webhook URL with the flag that makes the chat service block until the
/// message is delivered.
pub open spec fn spec_wait_url(webhook_url: Seq<char>) -> Seq<char> {
    webhook_url + "?wait=true"@
}

/// Builds the listing-endpoint URL for one folder.
pub fn listing_url(base: &str, folder_id: &str) -> (r: String)
    ensures
        r@ == spec_listing_url(base@, folder_id@),
{
    let r = base.to_owned().concat("Panopto/api/v1/folders/").concat(folder_id).concat(
        "/sessions?sortField=CreatedDate&sortOrder=Desc",
    );
    proof {
        assert(r@ =~= spec_listing_url(base@, folder_id@));
    }
    r
}

/// Builds the folder-page URL for one folder.
pub fn folder_url(base: &str, folder_id: &str) -> (r: String)
    ensures
        r@ == spec_folder_url(base@, folder_id@),
{
    let r = base.to_owned().concat("Panopto/Pages/Sessions/List.aspx#folderID=%22").concat(
        folder_id,
    ).concat("%22");
    proof {
        assert(r@ =~= spec_folder_url(base@, folder_id@));
    }
    r
}

/// Appends the delivery-acknowledgement flag to a webhook URL.
pub fn wait_url(webhook_url: &str) -> (r: String)
    ensures
        r@ == spec_wait_url(webhook_url@),
{
    webhook_url.to_owned().concat("?wait=true")
}

} // verus!
