//! The HTTP surface: what each route answers, as plain values that a server
//! turns into responses.
//!
//! A failure goes out under the status of its kind with a generic message:
//! 400 for bad input, 404 for an unknown identifier, 401 for a bad
//! credential, 500 for an exhausted allocation or a store failure.

use crate::digest::hashes_password;
use crate::error::Error;
use crate::form::{field, field_text, get_target, FormValue};
use crate::gate::credential_view;
use crate::ident::drawn_within;
use crate::model::ShortenerView;
use crate::page::{create_success, stats_page, stats_view, success_page};
use crate::record::{url_parses, Stats, StatsView, Target, TargetView};
use crate::service::{stats_of, text_of, Shortener};
use vstd::prelude::*;

verus! {

/// The answer of a route.
#[derive(Debug, PartialEq, Eq)]
pub enum Reply {
    /// A page, sent with status 200.
    Page(String),
    /// A redirect to the location.
    Redirect(String),
    /// A failure with its status and message.
    Failure(u16, String),
}

/// The answer of a route as contracts see it.
pub enum ReplyView {
    Page(Seq<char>),
    Redirect(Seq<char>),
    Failure(u16, Seq<char>),
}

impl View for Reply {
    type V = ReplyView;

    open spec fn view(&self) -> ReplyView {
        match self {
            Reply::Page(body) => ReplyView::Page(body@),
            Reply::Redirect(location) => ReplyView::Redirect(location@),
            Reply::Failure(status, message) => ReplyView::Failure(*status, message@),
        }
    }
}

/// The answer that reports a failure.
pub open spec fn failure_view(error: Error) -> ReplyView {
    ReplyView::Failure(error.spec_status_code(), error.spec_message())
}

/// The answer to a creation of a record for `url`.
pub open spec fn create_reply_view(url: Seq<char>, outcome: Result<Seq<char>, Error>) -> ReplyView {
    match outcome {
        Ok(id) => ReplyView::Page(success_page(url, id)),
        Err(e) => failure_view(e),
    }
}

/// The answer to a redirect.
pub open spec fn redirect_reply_view(outcome: Result<Seq<char>, Error>) -> ReplyView {
    match outcome {
        Ok(url) => ReplyView::Redirect(url),
        Err(e) => failure_view(e),
    }
}

/// The answer to a statistics request.
pub open spec fn stats_reply_view(outcome: Result<StatsView, Error>) -> ReplyView {
    match outcome {
        Ok(stats) => ReplyView::Page(stats_page(stats)),
        Err(e) => failure_view(e),
    }
}

/// The answer to a login form with the entries `id` and `pw`.
pub open spec fn login_reply_view(
    s: ShortenerView,
    id: Option<Seq<char>>,
    pw: Option<Seq<char>>,
) -> ReplyView {
    match id {
        None => ReplyView::Failure(400, "Bad Request: ID Not Found"@),
        Some(id) => match pw {
            None => ReplyView::Failure(400, "Bad Request: Password Not Found"@),
            Some(secret) => stats_reply_view(s.stats_outcome(id, Some(secret))),
        },
    }
}

/// The answer that reports a failure.
pub fn failure(error: Error) -> (reply: Reply)
    ensures
        reply@ == failure_view(error),
{
    Reply::Failure(error.status_code(), error.message())
}

/// The answer to a creation of `target`: the success page for the new
/// identifier, or the failure.
pub fn create_reply(target: &Target, outcome: Result<String, Error>) -> (reply: Reply)
    ensures
        reply@ == create_reply_view(target.url@, text_of(outcome)),
{
    match outcome {
        Ok(id) => Reply::Page(create_success(target, id.as_str())),
        Err(e) => failure(e),
    }
}

/// The answer to a redirect: the way to the URL, or the failure.
pub fn redirect_reply(outcome: Result<String, Error>) -> (reply: Reply)
    ensures
        reply@ == redirect_reply_view(text_of(outcome)),
{
    match outcome {
        Ok(url) => Reply::Redirect(url),
        Err(e) => failure(e),
    }
}

/// The answer to a statistics request: the statistics page, or the failure.
pub fn stats_reply(outcome: Result<Stats, Error>) -> (reply: Reply)
    ensures
        reply@ == stats_reply_view(stats_of(outcome)),
{
    match outcome {
        Ok(stats) => Reply::Page(stats_view(&stats)),
        Err(e) => failure(e),
    }
}

/// Answers a creation form. A form without a URL in text, and a URL that is
/// not a well-formed absolute URL, fail validation and store nothing.
pub fn post_create(
    service: &mut Shortener,
    url: Option<FormValue>,
    password: Option<FormValue>,
    max_attempts: usize,
) -> (reply: Reply)
    ensures
        match field_text(url) {
            None => reply@ == failure_view(Error::Validation) && final(service)@ == old(service)@,
            Some(text) => exists|drawn: Seq<Seq<char>>, pw_hash: Option<Seq<char>>|
                {
                    &&& #[trigger] drawn_within(drawn, max_attempts)
                    &&& #[trigger] hashes_password(pw_hash, field_text(password))
                    &&& reply@ == create_reply_view(
                        text,
                        old(service)@.create_outcome(url_parses(text), drawn),
                    )
                    &&& final(service)@ == old(service)@.after_create(
                        url_parses(text),
                        TargetView { url: text, pw_hash: pw_hash },
                        drawn,
                    )
                    &&& reply@ == failure_view(Error::GenerationExhausted) ==> drawn.len()
                        == max_attempts
                },
        },
{
    match get_target(url, password) {
        Err(e) => failure(e),
        Ok(target) => {
            let outcome = service.submit(&target, max_attempts);
            create_reply(&target, outcome)
        },
    }
}

/// The identifier that a redirect route names, or the answer to a route
/// without one: a bad request.
pub fn redirect_request(id: Option<&str>) -> (request: Result<String, Reply>)
    ensures
        match request {
            Ok(named) => id matches Some(text) && named@ == text@,
            Err(reply) => id is None && reply@ == ReplyView::Failure(
                400,
                "Bad Request: No ID in URL"@,
            ),
        },
{
    match id {
        Some(id) => Ok(id.to_owned()),
        None => Err(Reply::Failure(400, "Bad Request: No ID in URL".to_owned())),
    }
}

/// The identifier and password that a login form enters, or the answer to a
/// form that lacks one of them: a bad request that says which.
pub fn login_request(id: Option<FormValue>, pw: Option<FormValue>) -> (request: Result<
    (String, String),
    Reply,
>)
    ensures
        match request {
            Ok((named, secret)) => field_text(id) == Some(named@) && field_text(pw) == Some(
                secret@,
            ),
            Err(reply) => if field_text(id) is None {
                reply@ == ReplyView::Failure(400, "Bad Request: ID Not Found"@)
            } else {
                field_text(pw) is None && reply@ == ReplyView::Failure(
                    400,
                    "Bad Request: Password Not Found"@,
                )
            },
        },
{
    let named = match field(id) {
        Some(named) => named,
        None => return Err(Reply::Failure(400, "Bad Request: ID Not Found".to_owned())),
    };
    match field(pw) {
        Some(secret) => Ok((named, secret)),
        None => Err(Reply::Failure(400, "Bad Request: Password Not Found".to_owned())),
    }
}

/// The identifier that a statistics route names, or the answer to a route
/// without one: the way to the login form under `origin`.
pub fn stats_request(origin: &str, id: Option<&str>) -> (request: Result<String, Reply>)
    ensures
        match request {
            Ok(named) => id matches Some(text) && named@ == text@,
            Err(reply) => id is None && reply@ == ReplyView::Redirect(origin@ + "/stats"@),
        },
{
    match id {
        Some(id) => Ok(id.to_owned()),
        None => Err(Reply::Redirect(origin.to_owned().concat("/stats"))),
    }
}

/// Answers a redirect route. A route without an identifier is a bad
/// request; an unknown identifier is not found and nothing is counted.
pub fn redirect(service: &mut Shortener, id: Option<&str>) -> (reply: Reply)
    ensures
        match id {
            Some(id) => reply@ == redirect_reply_view(old(service)@.redirect_outcome(id@))
                && final(service)@ == old(service)@.after_redirect(id@),
            None => final(service)@ == old(service)@ && reply@ == ReplyView::Failure(
                400,
                "Bad Request: No ID in URL"@,
            ),
        },
{
    match redirect_request(id) {
        Ok(named) => {
            let outcome = service.redirect(named.as_str());
            redirect_reply(outcome)
        },
        Err(reply) => reply,
    }
}

/// Answers a login form: the statistics of the identifier for the entered
/// password. A form without an identifier or without a password is a bad
/// request.
pub fn post_stats_login(service: &Shortener, id: Option<FormValue>, pw: Option<FormValue>) -> (reply:
    Reply)
    ensures
        reply@ == login_reply_view(service@, field_text(id), field_text(pw)),
{
    match login_request(id, pw) {
        Ok((named, secret)) => stats_reply(service.stats(named.as_str(), Some(&secret))),
        Err(reply) => reply,
    }
}

/// Answers a statistics route for a caller with the credential `pw`. A
/// route without an identifier leads to the login form under `origin`.
pub fn stats(service: &Shortener, origin: &str, id: Option<&str>, pw: Option<&String>) -> (reply:
    Reply)
    ensures
        reply@ == match id {
            Some(id) => stats_reply_view(service@.stats_outcome(id@, credential_view(pw))),
            None => ReplyView::Redirect(origin@ + "/stats"@),
        },
{
    match stats_request(origin, id) {
        Ok(named) => stats_reply(service.stats(named.as_str(), pw)),
        Err(reply) => reply,
    }
}

} // verus!
