//! The service over an in-process store: creation, redirect and statistics.
//!
//! Every operation is stated against the model of the store: what it
//! returns is the model's outcome for the request, and the store it leaves
//! is the model's next state. A creation draws random candidates, and with a
//! password a random salt; its contract holds for whatever was drawn, and
//! `create_from` is the same operation on candidates that the caller hands
//! in.

use crate::digest::{gen_hash, hashes_password};
use crate::error::Error;
use crate::gate::{check_access, credential_view};
use crate::ident::{
    allocate, allocate_from, drawn_within, first_free, lemma_first_free_is_free, texts, Allocation,
};
use crate::model::{access_for, redirect_for, ShortenerView};
use crate::record::{accept_if, url_parses, validate_target, Stats, StatsView, Target, TargetView};
use crate::store::{counted, CounterStore, RecordStore};
use vstd::prelude::*;

verus! {

/// The service, holding the two namespaces of its store.
pub struct Shortener {
    pub records: RecordStore,
    pub counters: CounterStore,
}

impl View for Shortener {
    type V = ShortenerView;

    open spec fn view(&self) -> ShortenerView {
        ShortenerView { records: self.records@, counters: self.counters@ }
    }
}

/// An identifier or URL that an operation returns, as contracts see it.
pub open spec fn text_of(outcome: Result<String, Error>) -> Result<Seq<char>, Error> {
    match outcome {
        Ok(text) => Ok(text@),
        Err(e) => Err(e),
    }
}

/// A record that a lookup returns, as contracts see it.
pub open spec fn record_of(outcome: Result<Target, Error>) -> Result<TargetView, Error> {
    match outcome {
        Ok(record) => Ok(record@),
        Err(e) => Err(e),
    }
}

/// The statistics that a request returns, as contracts see them.
pub open spec fn stats_of(outcome: Result<Stats, Error>) -> Result<StatsView, Error> {
    match outcome {
        Ok(stats) => Ok(stats@),
        Err(e) => Err(e),
    }
}

/// A password that comes with a creation, as contracts see it.
pub open spec fn secret_view(password: Option<String>) -> Option<Seq<char>> {
    match password {
        Some(secret) => Some(secret@),
        None => None,
    }
}

/// A record that the store gave out, as contracts see it.
pub open spec fn found_view(found: Option<Target>) -> Option<TargetView> {
    match found {
        Some(record) => Some(record@),
        None => None,
    }
}

/// A record that the store lent out, as contracts see it.
pub open spec fn lent_view(found: Option<&Target>) -> Option<TargetView> {
    match found {
        Some(record) => Some(record@),
        None => None,
    }
}

/// Decides where a redirect leads, from what the record store holds under
/// the identifier: to the record's URL, or a not-found failure.
pub fn resolve_redirect(found: Option<Target>) -> (outcome: Result<String, Error>)
    ensures
        text_of(outcome) == redirect_for(found_view(found)),
{
    match found {
        Some(record) => Ok(record.url),
        None => Err(Error::NotFound),
    }
}

/// Decides whether statistics are given out, from what the record store
/// holds under the identifier and the caller's credential: a not-found
/// failure without a record, an authorization failure where the record is
/// closed to the caller.
pub fn resolve_access(found: Option<&Target>, pw: Option<&String>) -> (outcome: Result<(), Error>)
    ensures
        outcome == access_for(lent_view(found), credential_view(pw)),
{
    match found {
        Some(record) => check_access(pw, record),
        None => Err(Error::NotFound),
    }
}

impl Shortener {
    /// A service with an empty store.
    pub fn new() -> (service: Self)
        ensures
            service@ == ShortenerView::empty(),
    {
        Shortener { records: RecordStore::new(), counters: CounterStore::new() }
    }

    /// The record stored under `id`, or a not-found failure.
    pub fn get_target_by_id(&self, id: &str) -> (found: Result<Target, Error>)
        ensures
            record_of(found) == self@.lookup(id@),
    {
        match self.records.get(id) {
            Some(record) => Ok(record),
            None => Err(Error::NotFound),
        }
    }

    /// The redirect count of `id`; zero where none was counted.
    pub fn get_redirect_count(&self, id: &str) -> (count: u32)
        ensures
            count == self@.count(id@),
    {
        self.counters.get(id)
    }

    /// Counts one redirect of `id`, whether or not a record is stored
    /// under it.
    pub fn increment_redirect_count(&mut self, id: &str)
        ensures
            final(self)@ == (ShortenerView {
                records: old(self)@.records,
                counters: counted(old(self)@.counters, id@),
            }),
    {
        self.counters.increment(id);
    }

    /// Stores `target` under an identifier that is known to be free.
    fn store_under(&mut self, id: String, target: &Target) -> (outcome: Result<String, Error>)
        requires
            !old(self)@.records.contains_key(id@),
        ensures
            outcome == Ok::<String, Error>(id),
            final(self)@ == (ShortenerView {
                records: old(self)@.records.insert(id@, target@),
                counters: old(self)@.counters,
            }),
    {
        match self.records.put(id.clone(), target.clone()) {
            Ok(()) => Ok(id),
            Err(e) => Err(e),
        }
    }

    /// Stores `target` under the first of `candidates` that is free, where
    /// `parses` is the URL parser's verdict on the target's URL. Fails with
    /// a validation failure where the URL does not parse, and with
    /// exhaustion where no candidate is free; a failure stores nothing.
    pub fn create_from(&mut self, parses: bool, target: &Target, candidates: &Vec<String>) -> (outcome:
        Result<String, Error>)
        ensures
            text_of(outcome) == old(self)@.create_outcome(parses, texts(candidates@)),
            final(self)@ == old(self)@.after_create(parses, target@, texts(candidates@)),
    {
        match accept_if(parses) {
            Err(e) => Err(e),
            Ok(()) => {
                proof {
                    lemma_first_free_is_free(self@.records.dom(), texts(candidates@));
                }
                match allocate_from(&self.records, candidates) {
                    Allocation::Allocated(id) => self.store_under(id, target),
                    Allocation::Exhausted => Err(Error::GenerationExhausted),
                }
            },
        }
    }

    /// Stores `target` under a freshly allocated identifier and returns the
    /// identifier. At most `max_attempts` candidates are drawn; where none
    /// of them is free, the creation fails as exhausted and stores nothing.
    pub fn create_new_target(&mut self, target: &Target, max_attempts: usize) -> (outcome: Result<
        String,
        Error,
    >)
        ensures
            exists|drawn: Seq<Seq<char>>|
                {
                    &&& #[trigger] drawn_within(drawn, max_attempts)
                    &&& text_of(outcome) == old(self)@.create_outcome(true, drawn)
                    &&& final(self)@ == old(self)@.after_create(true, target@, drawn)
                    &&& outcome is Err ==> drawn.len() == max_attempts
                },
    {
        let allocation = allocate(&self.records, max_attempts);
        proof {
            let drawn = choose|drawn: Seq<Seq<char>>|
                {
                    &&& #[trigger] drawn_within(drawn, max_attempts)
                    &&& allocation.id() == first_free(self@.records.dom(), drawn)
                    &&& allocation is Exhausted ==> drawn.len() == max_attempts
                };
            lemma_first_free_is_free(self@.records.dom(), drawn);
        }
        match allocation {
            Allocation::Allocated(id) => self.store_under(id, target),
            Allocation::Exhausted => Err(Error::GenerationExhausted),
        }
    }

    /// Validates `target` and stores it under a freshly allocated
    /// identifier. A target whose URL is not a well-formed absolute URL is
    /// rejected with a validation failure and nothing is stored. The
    /// creation fails as exhausted only after `max_attempts` candidates
    /// were drawn and found in use.
    pub fn submit(&mut self, target: &Target, max_attempts: usize) -> (outcome: Result<
        String,
        Error,
    >)
        ensures
            exists|drawn: Seq<Seq<char>>|
                {
                    &&& #[trigger] drawn_within(drawn, max_attempts)
                    &&& text_of(outcome) == old(self)@.create_outcome(
                        url_parses(target.url@),
                        drawn,
                    )
                    &&& final(self)@ == old(self)@.after_create(
                        url_parses(target.url@),
                        target@,
                        drawn,
                    )
                    &&& outcome == Err::<String, Error>(Error::GenerationExhausted)
                        ==> drawn.len() == max_attempts
                },
    {
        match validate_target(target) {
            Err(e) => {
                assert(drawn_within(Seq::<Seq<char>>::empty(), max_attempts));
                Err(e)
            },
            Ok(()) => self.create_new_target(target, max_attempts),
        }
    }

    /// Creates a record for `url`, gated by `password` if one is given, and
    /// returns its identifier. The URL is stored as it was given and the
    /// password as a fresh digest. The creation fails validation where the
    /// URL is not a well-formed absolute URL, and as exhausted only after
    /// `max_attempts` candidates were drawn and found in use; a failure
    /// stores nothing.
    pub fn create(&mut self, url: String, password: Option<String>, max_attempts: usize) -> (outcome:
        Result<String, Error>)
        ensures
            exists|drawn: Seq<Seq<char>>, pw_hash: Option<Seq<char>>|
                {
                    &&& #[trigger] drawn_within(drawn, max_attempts)
                    &&& #[trigger] hashes_password(pw_hash, secret_view(password))
                    &&& text_of(outcome) == old(self)@.create_outcome(url_parses(url@), drawn)
                    &&& final(self)@ == old(self)@.after_create(
                        url_parses(url@),
                        TargetView { url: url@, pw_hash: pw_hash },
                        drawn,
                    )
                    &&& outcome == Err::<String, Error>(Error::GenerationExhausted)
                        ==> drawn.len() == max_attempts
                },
    {
        let pw_hash = match password {
            Some(secret) => Some(gen_hash(secret)),
            None => None,
        };
        let target = Target { url, pw_hash };
        assert(hashes_password(target@.pw_hash, secret_view(password)));
        self.submit(&target, max_attempts)
    }

    /// Follows `id` to its URL and counts the redirect. An unknown
    /// identifier fails as not found and nothing is counted.
    pub fn redirect(&mut self, id: &str) -> (outcome: Result<String, Error>)
        ensures
            text_of(outcome) == old(self)@.redirect_outcome(id@),
            final(self)@ == old(self)@.after_redirect(id@),
    {
        let outcome = resolve_redirect(self.records.get(id));
        if outcome.is_ok() {
            self.increment_redirect_count(id);
        }
        outcome
    }

    /// The statistics of `id` for a caller with the credential `pw`. Fails
    /// as not found for an unknown identifier, and as unauthorized where the
    /// record is gated and the credential is missing or wrong.
    pub fn stats(&self, id: &str, pw: Option<&String>) -> (outcome: Result<Stats, Error>)
        ensures
            stats_of(outcome) == self@.stats_outcome(id@, credential_view(pw)),
    {
        let found = self.records.get(id);
        match resolve_access(found.as_ref(), pw) {
            Ok(()) => Ok(Stats { id: id.to_owned(), count: self.get_redirect_count(id) }),
            Err(e) => Err(e),
        }
    }
}

} // verus!
