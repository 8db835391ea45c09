//! The pages that report a creation and the statistics of an identifier,
//! and the paths under which an identifier is reached. The pages are the
//! inner HTML of the body; the layout around it is the caller's.

use crate::count::{decimal_text, render_count};
use crate::record::{Stats, StatsView, Target};
use vstd::prelude::*;

verus! {

/// The path that redirects `id`.
pub open spec fn redirect_path_of(id: Seq<char>) -> Seq<char> {
    "/redirect/"@ + id
}

/// The path that shows the statistics of `id`.
pub open spec fn stats_path_of(id: Seq<char>) -> Seq<char> {
    "/stats/"@ + id
}

/// The page that reports the statistics of an identifier.
pub open spec fn stats_page(stats: StatsView) -> Seq<char> {
    "<h1>Stats</h1>\n        <a href=\"/\">Home</a>\n        <a href=\"/stats\">Back to Login</a>\n        <h2>ID</h2>\n        <p>"@
        + stats.id + "</p>\n        <h2>Count</h2>\n        <p>"@ + decimal_text(
        stats.count as nat,
    ) + "</p>"@
}

/// The page that reports a creation: the URL, its new identifier, and the
/// two paths under which the identifier is reached.
pub open spec fn success_page(url: Seq<char>, id: Seq<char>) -> Seq<char> {
    "<h1>Success!</h1>\n            <a href=\"/\">Home</a>\n            <p>New ID for URL(\""@
        + url + "\") is: "@ + id + "</p>\n            <p><a href=\""@ + redirect_path_of(id)
        + "\">Redirect URL</a> (copy this into your QR generator</p>\n            <p><a href=\""@
        + stats_path_of(id)
        + "\">Stats URL</a> (visit here, and enter your ID and password to view your stats)</p>"@
}

/// The path that redirects `id`.
pub fn redirect_path(id: &str) -> (path: String)
    ensures
        path@ == redirect_path_of(id@),
{
    "/redirect/".to_owned().concat(id)
}

/// The path that shows the statistics of `id`.
pub fn stats_path(id: &str) -> (path: String)
    ensures
        path@ == stats_path_of(id@),
{
    "/stats/".to_owned().concat(id)
}

/// Writes the page that reports the statistics of an identifier.
pub fn stats_view(stats: &Stats) -> (body: String)
    ensures
        body@ == stats_page(stats@),
{
    let mut body =
        "<h1>Stats</h1>\n        <a href=\"/\">Home</a>\n        <a href=\"/stats\">Back to Login</a>\n        <h2>ID</h2>\n        <p>".to_owned();
    body.append(stats.id.as_str());
    body.append("</p>\n        <h2>Count</h2>\n        <p>");
    body.append(render_count(stats.count).as_str());
    body.append("</p>");
    body
}

/// Writes the page that reports a creation.
pub fn create_success(target: &Target, id: &str) -> (body: String)
    ensures
        body@ == success_page(target.url@, id@),
{
    let mut body =
        "<h1>Success!</h1>\n            <a href=\"/\">Home</a>\n            <p>New ID for URL(\"".to_owned();
    body.append(target.url.as_str());
    body.append("\") is: ");
    body.append(id);
    body.append("</p>\n            <p><a href=\"");
    body.append(redirect_path(id).as_str());
    body.append("\">Redirect URL</a> (copy this into your QR generator</p>\n            <p><a href=\"");
    body.append(stats_path(id).as_str());
    body.append(
        "\">Stats URL</a> (visit here, and enter your ID and password to view your stats)</p>",
    );
    body
}

} // verus!
