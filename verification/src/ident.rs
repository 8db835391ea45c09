//! Short identifiers: eight lower-case hexadecimal characters, taken from
//! the first group of a freshly drawn random UUID, and their allocation.
//!
//! An identifier is allocated by drawing candidates until one is free in the
//! record store, within a bound on the number of draws. The candidates are
//! random, so an allocation may run out of attempts; which identifier comes
//! out for given candidates is fixed by `first_free`.

use crate::store::RecordStore;
use vstd::prelude::*;

verus! {

/// The number of candidates that a creation draws before it gives up,
/// where the caller has no bound of its own. With identifiers of 32 random
/// bits, eight draws in a row meet identifiers in use only in a store that
/// is close to full.
pub const MAX_ID_ATTEMPTS: usize = 8;

/// Whether `c` is a decimal digit or one of the letters `a` to `f`.
pub open spec fn is_lower_hex(c: char) -> bool {
    ('0' <= c && c <= '9') || ('a' <= c && c <= 'f')
}

/// The places of the four hyphens in the hyphenated text of a UUID.
pub open spec fn is_hyphen_position(i: int) -> bool {
    i == 8 || i == 13 || i == 18 || i == 23
}

/// The shape of a UUID in hyphenated lower-case text: 36 characters, groups
/// of 8, 4, 4, 4 and 12 hexadecimal characters with a hyphen between them.
pub open spec fn is_hyphenated_uuid(s: Seq<char>) -> bool {
    &&& s.len() == 36
    &&& forall|i: int|
        0 <= i < 36 ==> if is_hyphen_position(i) {
            #[trigger] s[i] == '-'
        } else {
            is_lower_hex(s[i])
        }
}

/// The shape of a short identifier: eight lower-case hexadecimal characters.
pub open spec fn is_short_id(s: Seq<char>) -> bool {
    &&& s.len() == 8
    &&& forall|i: int| 0 <= i < 8 ==> is_lower_hex(#[trigger] s[i])
}

/// Whether the first group of `s` ends at `k`: no hyphen stands before `k`,
/// and at `k` stands a hyphen or the end of `s`.
pub open spec fn first_group_ends_at(s: Seq<char>, k: int) -> bool {
    &&& 0 <= k <= s.len()
    &&& k < s.len() ==> s[k] == '-'
    &&& forall|j: int| 0 <= j < k ==> #[trigger] s[j] != '-'
}

/// Draws a version 4 UUID with `uuid::Uuid::new_v4` and writes it out with
/// the crate's `Display`, which gives the hyphenated lower-case form. The
/// bits are random, so only the shape of the text is claimed. Drawing fails
/// with a panic where the operating system gives no random bytes.
#[verifier::external_body]
pub(crate) fn fresh_uuid_text() -> (text: String)
    ensures
        is_hyphenated_uuid(text@),
{
    uuid::Uuid::new_v4().to_string()
}

/// The part of `text` before its first hyphen; all of `text` if it has none.
pub fn first_group(text: &str) -> (group: String)
    ensures
        first_group_ends_at(text@, group@.len() as int),
        group@ == text@.take(group@.len() as int),
{
    let n = text.unicode_len();
    let mut k: usize = 0;
    while k < n && text.get_char(k) != '-'
        invariant
            k <= n,
            n == text@.len(),
            forall|j: int| 0 <= j < k ==> #[trigger] text@[j] != '-',
        decreases n - k,
    {
        k += 1;
    }
    text.substring_char(0, k).to_owned()
}

/// A candidate identifier: the first group of a fresh random UUID. Whether
/// it is free in the store is for the caller to find out.
pub fn candidate_id() -> (id: String)
    ensures
        is_short_id(id@),
{
    let uuid = fresh_uuid_text();
    let id = first_group(uuid.as_str());
    proof {
        let k = id@.len() as int;
        assert(is_hyphen_position(8));
        assert(uuid@[8] == '-');
        if k < 8 {
            assert(!is_hyphen_position(k));
            assert(is_lower_hex(uuid@[k]));
        }
        assert(k == 8);
        assert forall|i: int| 0 <= i < 8 implies is_lower_hex(#[trigger] id@[i]) by {
            assert(!is_hyphen_position(i));
            assert(is_lower_hex(uuid@[i]));
        }
    }
    id
}

/// The outcome of an allocation.
#[derive(Debug, PartialEq, Eq)]
pub enum Allocation {
    /// This identifier was free when it was looked up.
    Allocated(String),
    /// Every attempt met an identifier that is in use.
    Exhausted,
}

impl Allocation {
    /// The identifier that was allocated, if one was.
    pub open spec fn id(self) -> Option<Seq<char>> {
        match self {
            Allocation::Allocated(id) => Some(id@),
            Allocation::Exhausted => None,
        }
    }
}

/// The candidates of a list as contracts see them.
pub open spec fn texts(candidates: Seq<String>) -> Seq<Seq<char>> {
    candidates.map_values(|candidate: String| candidate@)
}

/// The first of the candidates that is not taken, if there is one.
pub open spec fn first_free(taken: Set<Seq<char>>, candidates: Seq<Seq<char>>) -> Option<
    Seq<char>,
>
    decreases candidates.len(),
{
    if candidates.len() == 0 {
        None
    } else if !taken.contains(candidates[0]) {
        Some(candidates[0])
    } else {
        first_free(taken, candidates.skip(1))
    }
}

/// An identifier that comes out of `first_free` is one of the candidates
/// and is not taken.
pub proof fn lemma_first_free_is_free(taken: Set<Seq<char>>, candidates: Seq<Seq<char>>)
    ensures
        match first_free(taken, candidates) {
            Some(id) => !taken.contains(id) && candidates.contains(id),
            None => forall|i: int|
                0 <= i < candidates.len() ==> taken.contains(#[trigger] candidates[i]),
        },
    decreases candidates.len(),
{
    if candidates.len() > 0 && taken.contains(candidates[0]) {
        let rest = candidates.skip(1);
        lemma_first_free_is_free(taken, rest);
        match first_free(taken, rest) {
            Some(id) => {
                let i = choose|i: int| 0 <= i < rest.len() && rest[i] == id;
                assert(candidates[i + 1] == id);
            },
            None => {
                assert forall|i: int| 0 <= i < candidates.len() implies taken.contains(
                    #[trigger] candidates[i],
                ) by {
                    if i > 0 {
                        assert(rest[i - 1] == candidates[i]);
                    }
                }
            },
        }
    } else if candidates.len() > 0 {
        assert(candidates[0] == candidates[0]);
    }
}

/// After candidates that are all taken, one more candidate decides.
pub proof fn lemma_first_free_after_taken(
    taken: Set<Seq<char>>,
    drawn: Seq<Seq<char>>,
    next: Seq<char>,
)
    requires
        forall|i: int| 0 <= i < drawn.len() ==> taken.contains(#[trigger] drawn[i]),
    ensures
        first_free(taken, drawn) is None,
        first_free(taken, drawn.push(next)) == if taken.contains(next) {
            None
        } else {
            Some(next)
        },
    decreases drawn.len(),
{
    let grown = drawn.push(next);
    if drawn.len() == 0 {
        assert(grown[0] == next);
        assert(grown.skip(1) =~= Seq::<Seq<char>>::empty());
        assert(first_free(taken, grown.skip(1)) is None);
    } else {
        let rest = drawn.skip(1);
        assert(drawn[0] == drawn[0]);
        assert forall|i: int| 0 <= i < rest.len() implies taken.contains(#[trigger] rest[i]) by {
            assert(rest[i] == drawn[i + 1]);
        }
        lemma_first_free_after_taken(taken, rest, next);
        assert(grown[0] == drawn[0]);
        assert(grown.skip(1) =~= rest.push(next));
    }
}

/// Whether `drawn` can be what an allocation with `max_attempts` attempts
/// drew: no more candidates than attempts, each of them a short identifier.
pub open spec fn drawn_within(drawn: Seq<Seq<char>>, max_attempts: usize) -> bool {
    &&& drawn.len() <= max_attempts
    &&& forall|i: int| 0 <= i < drawn.len() ==> is_short_id(#[trigger] drawn[i])
}

/// The attempts that an allocation may still make.
pub struct Attempts {
    left: usize,
}

impl Attempts {
    /// How many candidates may still be drawn.
    pub closed spec fn left(&self) -> nat {
        self.left as nat
    }

    /// An allocation that may draw `max_attempts` candidates.
    pub fn new(max_attempts: usize) -> (attempts: Self)
        ensures
            attempts.left() == max_attempts,
    {
        Attempts { left: max_attempts }
    }

    /// Draws the next candidate, or nothing once the attempts are used up.
    pub fn next_candidate(&mut self) -> (candidate: Option<String>)
        ensures
            match candidate {
                Some(id) => old(self).left() > 0 && final(self).left() == old(self).left() - 1
                    && is_short_id(id@),
                None => old(self).left() == 0 && final(self).left() == 0,
            },
    {
        if self.left == 0 {
            None
        } else {
            self.left = self.left - 1;
            Some(candidate_id())
        }
    }
}

/// Allocates the first of the given candidates that is free in `records`.
pub fn allocate_from(records: &RecordStore, candidates: &Vec<String>) -> (outcome: Allocation)
    ensures
        outcome.id() == first_free(records@.dom(), texts(candidates@)),
{
    let ghost all = texts(candidates@);
    let mut i: usize = 0;
    assert(all.skip(0) =~= all);
    while i < candidates.len()
        invariant
            i <= candidates@.len(),
            all == texts(candidates@),
            first_free(records@.dom(), all) == first_free(records@.dom(), all.skip(i as int)),
        decreases candidates@.len() - i,
    {
        assert(all.skip(i as int)[0] == candidates@[i as int]@);
        assert(all.skip(i as int).skip(1) =~= all.skip(i + 1));
        if !records.contains(candidates[i].as_str()) {
            return Allocation::Allocated(candidates[i].clone());
        }
        i += 1;
    }
    Allocation::Exhausted
}

/// Allocates an identifier that is free in `records`, drawing at most
/// `max_attempts` random candidates. The outcome is that of `first_free` on
/// the candidates that were drawn; where none of them was free, all
/// `max_attempts` were drawn.
pub fn allocate(records: &RecordStore, max_attempts: usize) -> (outcome: Allocation)
    ensures
        exists|drawn: Seq<Seq<char>>|
            {
                &&& #[trigger] drawn_within(drawn, max_attempts)
                &&& outcome.id() == first_free(records@.dom(), drawn)
                &&& outcome is Exhausted ==> drawn.len() == max_attempts
            },
{
    let mut attempts = Attempts::new(max_attempts);
    let ghost mut drawn = Seq::<Seq<char>>::empty();
    loop
        invariant
            drawn.len() + attempts.left() == max_attempts,
            forall|i: int| 0 <= i < drawn.len() ==> is_short_id(#[trigger] drawn[i]),
            forall|i: int| 0 <= i < drawn.len() ==> records@.dom().contains(#[trigger] drawn[i]),
        decreases attempts.left(),
    {
        match attempts.next_candidate() {
            None => {
                proof {
                    lemma_first_free_after_taken(records@.dom(), drawn, Seq::<char>::empty());
                    assert(drawn_within(drawn, max_attempts));
                }
                return Allocation::Exhausted;
            },
            Some(candidate) => {
                proof {
                    lemma_first_free_after_taken(records@.dom(), drawn, candidate@);
                    drawn = drawn.push(candidate@);
                }
                if !records.contains(candidate.as_str()) {
                    assert(drawn_within(drawn, max_attempts));
                    return Allocation::Allocated(candidate);
                }
            },
        }
    }
}

} // verus!
