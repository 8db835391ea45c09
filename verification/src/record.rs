//! The stored data: a target record per identifier, and the statistics that
//! are reported for one.

use crate::error::Error;
use vstd::prelude::*;

verus! {

/// What is stored for an identifier: where it leads, and the digest of the
/// password that gates its statistics, if it has one. A record is written
/// once and never changed.
#[derive(Debug, PartialEq, Eq)]
pub struct Target {
    pub url: String,
    pub pw_hash: Option<String>,
}

/// A target record as contracts see it.
pub struct TargetView {
    pub url: Seq<char>,
    pub pw_hash: Option<Seq<char>>,
}

impl View for Target {
    type V = TargetView;

    open spec fn view(&self) -> TargetView {
        TargetView {
            url: self.url@,
            pw_hash: match self.pw_hash {
                Some(digest) => Some(digest@),
                None => None,
            },
        }
    }
}

impl Clone for Target {
    /// A copy of the record, field by field.
    fn clone(&self) -> (copy: Target)
        ensures
            copy@ == self@,
    {
        let pw_hash = match &self.pw_hash {
            Some(digest) => Some(digest.clone()),
            None => None,
        };
        Target { url: self.url.clone(), pw_hash }
    }
}

/// The redirect count of an identifier, as it is reported.
#[derive(Debug, PartialEq, Eq)]
pub struct Stats {
    pub id: String,
    pub count: u32,
}

impl Clone for Stats {
    /// A copy of the statistics.
    fn clone(&self) -> (copy: Stats)
        ensures
            copy@ == self@,
    {
        Stats { id: self.id.clone(), count: self.count }
    }
}

/// Reported statistics as contracts see them.
pub struct StatsView {
    pub id: Seq<char>,
    pub count: u32,
}

impl View for Stats {
    type V = StatsView;

    open spec fn view(&self) -> StatsView {
        StatsView { id: self.id@, count: self.count }
    }
}

/// Whether a text is a well-formed absolute URL, as the `url` crate's parser
/// decides it.
pub uninterp spec fn url_parses(text: Seq<char>) -> bool;

/// Runs `url::Url::parse` on the text and tells whether it succeeded. The
/// parser takes no base here, so only absolute URLs pass; its verdict
/// depends on the text alone and is named, not spelled out.
#[verifier::external_body]
fn parses_as_url(text: &str) -> (ok: bool)
    ensures
        ok == url_parses(text@),
{
    url::Url::parse(text).is_ok()
}

/// Accepts a record whose URL is a well-formed absolute URL and rejects any
/// other with a validation failure. The record is left as it is.
pub fn validate_target(target: &Target) -> (outcome: Result<(), Error>)
    ensures
        outcome == validation_outcome(url_parses(target.url@)),
{
    accept_if(parses_as_url(target.url.as_str()))
}

/// The outcome of validation for a verdict of the URL parser.
pub open spec fn validation_outcome(parses: bool) -> Result<(), Error> {
    if parses {
        Ok(())
    } else {
        Err(Error::Validation)
    }
}

/// Turns the URL parser's verdict into the outcome of validation.
pub fn accept_if(parses: bool) -> (outcome: Result<(), Error>)
    ensures
        outcome == validation_outcome(parses),
{
    if parses {
        Ok(())
    } else {
        Err(Error::Validation)
    }
}

} // verus!
