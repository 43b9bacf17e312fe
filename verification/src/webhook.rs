//! The chat-webhook payloads: one embed per announced recording, and the
//! plain operational-alert message. The process around the library only
//! serializes these records and posts them.

use vstd::prelude::*;
use crate::recording::PanoptoSession;
use crate::urls::spec_folder_url;
use crate::urls::folder_url;

verus! {

/// One name-value field of an embed.
#[derive(Debug, Clone)]
pub struct EmbedField {
    pub name: String,
    pub value: String,
}

/// One embed of a webhook payload. The timestamp is a UTC instant in seconds
/// since the Unix epoch, the color a 24-bit RGB integer.
#[derive(Debug, Clone)]
pub struct Embed {
    pub title: String,
    pub description: Option<String>,
    pub url: String,
    pub color: u32,
    pub timestamp: i64,
    pub footer_text: String,
    pub image_url: String,
    pub author_name: String,
    pub author_url: String,
    pub fields: Vec<EmbedField>,
}

/// A webhook payload: plain text, or a list of embeds.
#[derive(Debug, Clone)]
pub struct WebhookRequest {
    pub content: Option<String>,
    pub embeds: Option<Vec<Embed>>,
}

/// Names what humantime renders for a duration of whole seconds, such as
/// `1h 2m 3s`; the rendering depends on the seconds alone.
pub uninterp spec fn human_duration_of(secs: u64) -> Seq<char>;

/// Renders a duration of whole seconds in human-readable form.
///
/// Relies on humantime's `format_duration`: the rendering is a pure function
/// of the duration, and a zero duration renders as `0s`.
#[verifier::external_body]
fn format_duration_secs(secs: u64) -> (r: String)
    ensures
        r@ == human_duration_of(secs),
        secs == 0 ==> r@ == "0s"@,
{
    humantime::format_duration(std::time::Duration::from_secs(secs)).to_string()
}

/// The payload announcing one recording: a single embed titled with the
/// recording's name, linking its viewer page, colored with its folder's
/// color, stamped with its start time (or `now` when it has none), footed
/// `panoptocord`, showing its thumbnail, authored by its folder with the
/// folder page as link, and carrying one `Duration` field with the
/// human-readable duration.
pub fn recording_request(
    session: &PanoptoSession,
    color: u32,
    panopto_base: &str,
    now: i64,
) -> (r: WebhookRequest)
    ensures
        r.content is None,
        r.embeds is Some,
        r.embeds->0.len() == 1,
        ({
            let e = r.embeds->0[0];
            &&& e.title == session.name
            &&& e.description == session.description
            &&& e.url == session.urls.viewer_url
            &&& e.color == color
            &&& e.timestamp == match session.start_time {
                Some(t) => t,
                None => now,
            }
            &&& e.footer_text@ == "panoptocord"@
            &&& e.image_url == session.urls.thumbnail_url
            &&& e.author_name == session.folder_details.name
            &&& e.author_url@ == spec_folder_url(panopto_base@, session.folder_details.id@)
            &&& e.fields.len() == 1
            &&& e.fields[0].name@ == "Duration"@
            &&& e.fields[0].value@ == human_duration_of(session.duration)
        }),
{
    let timestamp = match session.start_time {
        Some(t) => t,
        None => now,
    };
    let mut fields: Vec<EmbedField> = Vec::new();
    fields.push(
        EmbedField {
            name: "Duration".to_owned(),
            value: format_duration_secs(session.duration),
        },
    );
    let embed = Embed {
        title: session.name.clone(),
        description: match &session.description {
            Some(d) => Some(d.clone()),
            None => None,
        },
        url: session.urls.viewer_url.clone(),
        color,
        timestamp,
        footer_text: "panoptocord".to_owned(),
        image_url: session.urls.thumbnail_url.clone(),
        author_name: session.folder_details.name.clone(),
        author_url: folder_url(panopto_base, session.folder_details.id.as_str()),
        fields,
    };
    let mut embeds: Vec<Embed> = Vec::new();
    embeds.push(embed);
    WebhookRequest { content: None, embeds: Some(embeds) }
}

/// The plain operational-alert payload: text only, no embeds.
pub fn message_request(message: String) -> (r: WebhookRequest)
    ensures
        r.content == Some(message),
        r.embeds is None,
{
    WebhookRequest { content: Some(message), embeds: None }
}

} // verus!
