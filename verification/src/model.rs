//! The store as contracts see it, and what each request does to it.
//!
//! The state is the two namespaces as maps. A request is answered from the
//! state and leaves a new state; `step` is that function, and the
//! operations of the service are stated against its parts. A history is a
//! sequence of requests answered one after another.

use crate::digest::{law_digest_matches_same_digest, salted_digest, same_digest};
use crate::error::Error;
use crate::gate::access_outcome;
use crate::ident::{first_free, lemma_first_free_is_free};
use crate::record::{StatsView, TargetView};
use crate::store::{count_in, counted, lemma_counted_counts};
use vstd::prelude::*;

verus! {

/// The two namespaces of the store.
pub struct ShortenerView {
    /// The target record of each identifier in use.
    pub records: Map<Seq<char>, TargetView>,
    /// The count text of each identifier that was redirected.
    pub counters: Map<Seq<char>, Seq<char>>,
}

/// A request to the service, with what the outside world contributes to
/// it: the URL parser's verdict and the candidates drawn for the identifier.
pub enum Request {
    /// Store `target` under the first free one of `candidates`, if its URL
    /// parses.
    Create { parses: bool, target: TargetView, candidates: Seq<Seq<char>> },
    /// Follow `id` to its URL and count the redirect.
    Redirect { id: Seq<char> },
    /// Read the redirect count of `id` with an optional credential.
    Stats { id: Seq<char>, credential: Option<Seq<char>> },
}

/// The answer to a request.
pub enum Response {
    /// The record was stored under this identifier.
    Created(Seq<char>),
    /// The visitor is sent to this URL.
    Redirected(Seq<char>),
    /// The statistics of the identifier.
    Counted(StatsView),
    /// The request failed.
    Failed(Error),
}

/// Where a redirect leads, for what the record store holds under the
/// identifier: to the record's URL, or nowhere where it holds nothing.
pub open spec fn redirect_for(found: Option<TargetView>) -> Result<Seq<char>, Error> {
    match found {
        Some(record) => Ok(record.url),
        None => Err(Error::NotFound),
    }
}

/// Whether the statistics are given out, for what the record store holds
/// under the identifier and the caller's credential.
pub open spec fn access_for(found: Option<TargetView>, credential: Option<Seq<char>>) -> Result<
    (),
    Error,
> {
    match found {
        Some(record) => access_outcome(record, credential),
        None => Err(Error::NotFound),
    }
}

impl ShortenerView {
    /// The store before anything was written.
    pub open spec fn empty() -> ShortenerView {
        ShortenerView { records: Map::empty(), counters: Map::empty() }
    }

    /// The redirect count of `id`.
    pub open spec fn count(self, id: Seq<char>) -> u32 {
        count_in(self.counters, id)
    }

    /// The record stored under `id`, if there is one.
    pub open spec fn record(self, id: Seq<char>) -> Option<TargetView> {
        if self.records.contains_key(id) {
            Some(self.records[id])
        } else {
            None
        }
    }

    /// The answer to a lookup of `id`.
    pub open spec fn lookup(self, id: Seq<char>) -> Result<TargetView, Error> {
        match self.record(id) {
            Some(record) => Ok(record),
            None => Err(Error::NotFound),
        }
    }

    /// The identifier under which a creation stores its record, or why it
    /// stores none.
    pub open spec fn create_outcome(self, parses: bool, candidates: Seq<Seq<char>>) -> Result<
        Seq<char>,
        Error,
    > {
        if !parses {
            Err(Error::Validation)
        } else {
            match first_free(self.records.dom(), candidates) {
                Some(id) => Ok(id),
                None => Err(Error::GenerationExhausted),
            }
        }
    }

    /// The store after a creation: the record is added where the creation
    /// succeeds, and nothing changes where it fails.
    pub open spec fn after_create(
        self,
        parses: bool,
        target: TargetView,
        candidates: Seq<Seq<char>>,
    ) -> ShortenerView {
        match self.create_outcome(parses, candidates) {
            Ok(id) => ShortenerView {
                records: self.records.insert(id, target),
                counters: self.counters,
            },
            Err(_) => self,
        }
    }

    /// The URL to which a redirect of `id` leads.
    pub open spec fn redirect_outcome(self, id: Seq<char>) -> Result<Seq<char>, Error> {
        redirect_for(self.record(id))
    }

    /// The store after a redirect of `id`: the redirect is counted where the
    /// identifier is known, and nothing changes where it is not.
    pub open spec fn after_redirect(self, id: Seq<char>) -> ShortenerView {
        if self.records.contains_key(id) {
            ShortenerView { records: self.records, counters: counted(self.counters, id) }
        } else {
            self
        }
    }

    /// The statistics that a caller with `credential` gets for `id`.
    pub open spec fn stats_outcome(self, id: Seq<char>, credential: Option<Seq<char>>) -> Result<
        StatsView,
        Error,
    > {
        match access_for(self.record(id), credential) {
            Ok(_) => Ok(StatsView { id: id, count: self.count(id) }),
            Err(e) => Err(e),
        }
    }

    /// The store after `request`.
    pub open spec fn after(self, request: Request) -> ShortenerView {
        match request {
            Request::Create { parses, target, candidates } => self.after_create(
                parses,
                target,
                candidates,
            ),
            Request::Redirect { id } => self.after_redirect(id),
            Request::Stats { .. } => self,
        }
    }

    /// The answer to `request`.
    pub open spec fn answer(self, request: Request) -> Response {
        match request {
            Request::Create { parses, target, candidates } => match self.create_outcome(
                parses,
                candidates,
            ) {
                Ok(id) => Response::Created(id),
                Err(e) => Response::Failed(e),
            },
            Request::Redirect { id } => match self.redirect_outcome(id) {
                Ok(url) => Response::Redirected(url),
                Err(e) => Response::Failed(e),
            },
            Request::Stats { id, credential } => match self.stats_outcome(id, credential) {
                Ok(stats) => Response::Counted(stats),
                Err(e) => Response::Failed(e),
            },
        }
    }

    /// The store after the requests of a history, in order.
    pub open spec fn run(self, history: Seq<Request>) -> ShortenerView
        decreases history.len(),
    {
        if history.len() == 0 {
            self
        } else {
            self.run(history.drop_last()).after(history.last())
        }
    }

    /// The answer to request `i` of a history.
    pub open spec fn answer_at(self, history: Seq<Request>, i: int) -> Response {
        self.run(history.take(i)).answer(history[i])
    }

    /// Whether every identifier that has a count has a record.
    pub open spec fn counts_only_records(self) -> bool {
        self.counters.dom().subset_of(self.records.dom())
    }
}

/// `n` redirects of `id`, one after another.
pub open spec fn redirects(id: Seq<char>, n: nat) -> Seq<Request> {
    Seq::new(n, |i: int| Request::Redirect { id: id })
}

/// A request keeps every record that is there, as it is.
pub proof fn lemma_request_keeps_records(s: ShortenerView, request: Request, id: Seq<char>)
    requires
        s.records.contains_key(id),
    ensures
        s.after(request).records.contains_key(id),
        s.after(request).records[id] == s.records[id],
{
    if let Request::Create { parses, target, candidates } = request {
        lemma_first_free_is_free(s.records.dom(), candidates);
    }
}

/// The state one request further into a history.
pub proof fn lemma_run_one_more(s: ShortenerView, history: Seq<Request>, i: int)
    requires
        0 <= i < history.len(),
    ensures
        s.run(history.take(i + 1)) == s.run(history.take(i)).after(history[i]),
{
    assert(history.take(i + 1).drop_last() =~= history.take(i));
    assert(history.take(i + 1).last() == history[i]);
}

/// A history keeps every record that is there at some point of it, as it
/// is: records are never changed or removed.
pub proof fn lemma_history_keeps_records(
    s: ShortenerView,
    history: Seq<Request>,
    i: int,
    j: int,
    id: Seq<char>,
)
    requires
        0 <= i <= j <= history.len(),
        s.run(history.take(i)).records.contains_key(id),
    ensures
        s.run(history.take(j)).records.contains_key(id),
        s.run(history.take(j)).records[id] == s.run(history.take(i)).records[id],
    decreases j - i,
{
    if i < j {
        lemma_history_keeps_records(s, history, i, j - 1, id);
        lemma_run_one_more(s, history, j - 1);
        lemma_request_keeps_records(s.run(history.take(j - 1)), history[j - 1], id);
    }
}

/// A record that is there after a history was there before it or was
/// created in it.
pub proof fn lemma_records_come_from_creations(
    s: ShortenerView,
    history: Seq<Request>,
    id: Seq<char>,
)
    requires
        s.run(history).records.contains_key(id),
    ensures
        s.records.contains_key(id) || exists|i: int|
            0 <= i < history.len() && #[trigger] s.answer_at(history, i) == Response::Created(id),
    decreases history.len(),
{
    if history.len() > 0 {
        let earlier = history.drop_last();
        let last = history.len() - 1;
        assert(history.take(last) =~= earlier);
        if s.run(earlier).records.contains_key(id) {
            lemma_records_come_from_creations(s, earlier, id);
            if !s.records.contains_key(id) {
                let i = choose|i: int|
                    0 <= i < earlier.len() && #[trigger] s.answer_at(earlier, i)
                        == Response::Created(id);
                assert(earlier.take(i) =~= history.take(i));
                assert(s.answer_at(history, i) == Response::Created(id));
            }
        } else {
            assert(s.answer_at(history, last) == Response::Created(id));
        }
    }
}

/// From the empty store on, only identifiers with a record have a count.
pub proof fn lemma_counts_only_records(history: Seq<Request>)
    ensures
        ShortenerView::empty().run(history).counts_only_records(),
    decreases history.len(),
{
    if history.len() > 0 {
        lemma_counts_only_records(history.drop_last());
    }
}

/// Round trip: once a creation has stored a record under an identifier, a
/// redirect of that identifier leads to exactly the URL of the record,
/// whatever was requested in between.
pub proof fn law_round_trip(
    s: ShortenerView,
    parses: bool,
    target: TargetView,
    candidates: Seq<Seq<char>>,
    later: Seq<Request>,
    id: Seq<char>,
)
    requires
        s.create_outcome(parses, candidates) == Ok::<Seq<char>, Error>(id),
    ensures
        s.after_create(parses, target, candidates).run(later).redirect_outcome(id) == Ok::<
            Seq<char>,
            Error,
        >(target.url),
{
    let created = s.after_create(parses, target, candidates);
    assert(later.take(0) =~= Seq::<Request>::empty());
    assert(later.take(later.len() as int) =~= later);
    lemma_history_keeps_records(created, later, 0, later.len() as int, id);
}

/// Uniqueness: no two creations of a history succeed with the same
/// identifier.
pub proof fn law_ids_are_unique(
    s: ShortenerView,
    history: Seq<Request>,
    i: int,
    j: int,
    first: Seq<char>,
    second: Seq<char>,
)
    requires
        0 <= i < j < history.len(),
        s.answer_at(history, i) == Response::Created(first),
        s.answer_at(history, j) == Response::Created(second),
    ensures
        first != second,
{
    lemma_run_one_more(s, history, i);
    assert(s.run(history.take(i + 1)).records.contains_key(first));
    lemma_history_keeps_records(s, history, i + 1, j, first);
    if let Request::Create { parses, target, candidates } = history[j] {
        lemma_first_free_is_free(s.run(history.take(j)).records.dom(), candidates);
    }
}

/// Counting: `n` redirects of a known identifier, one after another, raise
/// its count by `n`, as far as the count stays within `u32::MAX`.
pub proof fn law_redirects_are_counted(s: ShortenerView, id: Seq<char>, n: nat)
    requires
        s.records.contains_key(id),
        s.count(id) + n <= u32::MAX,
    ensures
        s.run(redirects(id, n)).count(id) == s.count(id) + n,
        s.run(redirects(id, n)).records == s.records,
    decreases n,
{
    if n > 0 {
        let earlier = redirects(id, (n - 1) as nat);
        assert(redirects(id, n).drop_last() =~= earlier);
        assert(redirects(id, n).last() == Request::Redirect { id: id });
        law_redirects_are_counted(s, id, (n - 1) as nat);
        lemma_counted_counts(s.run(earlier).counters, id);
    }
}

/// Counting from creation: in a store that started empty, an identifier
/// that a creation has just returned has the count `n` after `n` redirects.
pub proof fn law_new_record_counts_from_zero(
    history: Seq<Request>,
    parses: bool,
    target: TargetView,
    candidates: Seq<Seq<char>>,
    id: Seq<char>,
    n: nat,
)
    requires
        ShortenerView::empty().run(history).create_outcome(parses, candidates) == Ok::<
            Seq<char>,
            Error,
        >(id),
        n <= u32::MAX,
    ensures
        ShortenerView::empty().run(history).after_create(parses, target, candidates).run(
            redirects(id, n),
        ).count(id) == n,
{
    let before = ShortenerView::empty().run(history);
    lemma_counts_only_records(history);
    lemma_first_free_is_free(before.records.dom(), candidates);
    assert(!before.counters.contains_key(id));
    law_redirects_are_counted(before.after_create(parses, target, candidates), id, n);
}

/// Open records: the statistics of a record without a password are given
/// to every caller, with or without a credential.
pub proof fn law_open_record_is_statable(
    s: ShortenerView,
    id: Seq<char>,
    credential: Option<Seq<char>>,
)
    requires
        s.records.contains_key(id),
        s.records[id].pw_hash is None,
    ensures
        s.stats_outcome(id, credential) == Ok::<StatsView, Error>(
            StatsView { id: id, count: s.count(id) },
        ),
{
}

/// Gated records: the statistics of a record that was created with a
/// password are given to a caller with that password, and refused as
/// unauthorized to a caller with another credential, an empty one or none.
/// This is stated for credentials that do not have the password's digest
/// under the record's salt without being the password.
pub proof fn law_gated_record_needs_password(
    s: ShortenerView,
    id: Seq<char>,
    salt: Seq<char>,
    password: Seq<char>,
    credential: Option<Seq<char>>,
)
    requires
        s.records.contains_key(id),
        s.records[id].pw_hash == Some(salted_digest(salt, password)),
        match credential {
            Some(secret) => secret != password ==> !same_digest(salt, password, secret),
            None => true,
        },
    ensures
        s.stats_outcome(id, credential) == if credential == Some(password) {
            Ok::<StatsView, Error>(StatsView { id: id, count: s.count(id) })
        } else {
            Err::<StatsView, Error>(Error::Auth)
        },
{
    match credential {
        Some(secret) => {
            law_digest_matches_same_digest(salt, password, secret);
        },
        None => {},
    }
}

/// Not found: in a store that started empty, a redirect or a statistics
/// request for an identifier that no creation has returned fails as not
/// found.
pub proof fn law_unknown_id_is_not_found(
    history: Seq<Request>,
    id: Seq<char>,
    credential: Option<Seq<char>>,
)
    requires
        forall|i: int|
            0 <= i < history.len() ==> #[trigger] ShortenerView::empty().answer_at(history, i)
                != Response::Created(id),
    ensures
        ShortenerView::empty().run(history).redirect_outcome(id) == Err::<Seq<char>, Error>(
            Error::NotFound,
        ),
        ShortenerView::empty().run(history).stats_outcome(id, credential) == Err::<
            StatsView,
            Error,
        >(Error::NotFound),
        ShortenerView::empty().run(history).after_redirect(id) == ShortenerView::empty().run(
            history,
        ),
{
    let s = ShortenerView::empty();
    if s.run(history).records.contains_key(id) {
        lemma_records_come_from_creations(s, history, id);
    }
}

} // verus!
