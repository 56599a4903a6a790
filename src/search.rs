use vstd::prelude::*;
use vstd::string::*;

use crate::embedding::EmbeddingError;
use crate::scoring::{rank_candidates, ranked, Candidate, RecordKind, RelevanceConvention, Scored};
use crate::text::{is_white_space, trim_white_space, trimmed, white_space};

verus! {

/// What is shown of a person found by a search.
#[derive(Debug)]
pub struct PersonHit {
    pub id: String,
    pub name: String,
    pub username: String,
    pub headline: Option<String>,
    pub location: Option<String>,
    pub skills: Vec<String>,
    pub avatar_url: Option<String>,
}

/// What is shown of an organization found by a search.
#[derive(Debug)]
pub struct OrganizationHit {
    pub id: String,
    pub name: String,
    pub slug: String,
    pub description: Option<String>,
    pub location: Option<String>,
    pub logo: Option<String>,
}

/// What is shown of a filming location found by a search.
#[derive(Debug)]
pub struct LocationHit {
    pub id: String,
    pub name: String,
    pub address: String,
    pub city: String,
    pub state: String,
    pub description: Option<String>,
}

/// What is shown of a production found by a search.
#[derive(Debug)]
pub struct ProductionHit {
    pub id: String,
    pub title: String,
    pub status: String,
    pub description: Option<String>,
    pub location: Option<String>,
}

/// A person in the search results, with display initials and score.
#[derive(Debug)]
pub struct PersonResult {
    pub person: PersonHit,
    pub initials: String,
    pub score: i32,
}

/// Why a search produced no result.
#[derive(Debug)]
pub enum SearchError {
    /// The query's embedding could not be generated.
    Embedding(EmbeddingError),
    /// Every kind's lookup failed; the messages are in kind order.
    BackendUnavailable(Vec<String>),
}

/// The merged results of one search.
#[derive(Debug)]
pub struct SearchResult {
    /// The trimmed query, or `None` when none was given.
    pub query: Option<String>,
    pub has_results: bool,
    pub total_results: usize,
    pub people: Vec<PersonResult>,
    pub organizations: Vec<Scored<OrganizationHit>>,
    pub locations: Vec<Scored<LocationHit>>,
    pub productions: Vec<Scored<ProductionHit>>,
    /// The kinds whose lookup failed: their lists are incomplete, not empty.
    pub unavailable: Vec<RecordKind>,
}

/// The characters that begin a word: not white space, and first or after white space.
pub open spec fn word_starts(s: Seq<char>) -> Seq<char>
    decreases s.len(),
{
    if s.len() == 0 {
        Seq::empty()
    } else {
        let p = s.drop_last();
        let rest = word_starts(p);
        if !is_white_space(s.last()) && (p.len() == 0 || is_white_space(p.last())) {
            rest.push(s.last())
        } else {
            rest
        }
    }
}

/// At most the first two elements.
pub open spec fn first_two(s: Seq<char>) -> Seq<char> {
    if s.len() <= 2 { s } else { s.take(2) }
}

/// The first letters of the first two words of a name.
pub open spec fn initial_letters(name: Seq<char>) -> Seq<char> {
    first_two(word_starts(name))
}

/// What `str::to_uppercase` makes of a text.
pub uninterp spec fn upper_of(s: Seq<char>) -> Seq<char>;

/// Relies on `str::to_uppercase`: the upper-case mapping of each character,
/// which depends on the characters alone.
#[verifier::external_body]
fn uppercase(s: &str) -> (r: String)
    ensures
        r@ == upper_of(s@),
{
    s.to_uppercase()
}

/// The first letters of the first two words of the name, as they are.
pub fn initial_letters_of(name: &str) -> (r: String)
    ensures
        r@ == initial_letters(name@),
{
    let n = name.unicode_len();
    let mut letters = String::new();
    let mut count: usize = 0;
    let mut after_space = true;
    let mut i: usize = 0;
    while i < n
        invariant
            n == name@.len(),
            i <= n,
            letters@ == first_two(word_starts(name@.take(i as int))),
            count == letters@.len(),
            after_space == (i == 0 || is_white_space(name@[i - 1])),
        decreases n - i,
    {
        let c = name.get_char(i);
        let space = white_space(c);
        let ghost prefix = name@.take(i as int);
        let ghost next = name@.take(i + 1);
        assert(next.drop_last() =~= prefix);
        assert(next.last() == c);
        if !space && after_space && count < 2 {
            letters.append(name.substring_char(i, i + 1));
            count = count + 1;
            assert(letters@ =~= first_two(word_starts(next)));
        } else {
            assert(letters@ =~= first_two(word_starts(next)));
        }
        after_space = space;
        i = i + 1;
    }
    assert(name@.take(n as int) =~= name@);
    letters
}

/// Display initials: the first letters of the first two words of the name,
/// in upper case.
pub fn person_initials(name: &str) -> (r: String)
    ensures
        r@ == upper_of(initial_letters(name@)),
{
    let letters = initial_letters_of(name);
    uppercase(letters.as_str())
}

/// The query to search for: the text without surrounding white space, or
/// `None` when nothing is left, in which case no embedding is generated.
pub fn prepare_query(text: &str) -> (r: Option<String>)
    ensures
        r is None <==> trimmed(text@).len() == 0,
        r matches Some(q) ==> q@ == trimmed(text@),
{
    let t = trim_white_space(text);
    if t.unicode_len() == 0 {
        None
    } else {
        Some(String::from_str(t))
    }
}

/// The query string of a search request.
#[derive(Debug)]
pub struct SearchQuery {
    pub q: Option<String>,
}

impl SearchQuery {
    /// The text to search for: the query without surrounding white space, or
    /// `None` when it is missing or blank.
    pub fn search_text(&self) -> (r: Option<String>)
        ensures
            r is None <==> (self.q is None || trimmed(self.q->Some_0@).len() == 0),
            r matches Some(t) ==> (self.q matches Some(q) && t@ == trimmed(q@)),
    {
        match &self.q {
            Some(q) => prepare_query(q.as_str()),
            None => None,
        }
    }
}

impl SearchResult {
    /// The result shown when no query was given: no lists, no total.
    pub fn no_query() -> (r: SearchResult)
        ensures
            r.query is None,
            !r.has_results,
            r.total_results == 0,
            r.people@.len() == 0,
            r.organizations@.len() == 0,
            r.locations@.len() == 0,
            r.productions@.len() == 0,
            r.unavailable@.len() == 0,
    {
        SearchResult {
            query: None,
            has_results: false,
            total_results: 0,
            people: Vec::new(),
            organizations: Vec::new(),
            locations: Vec::new(),
            productions: Vec::new(),
            unavailable: Vec::new(),
        }
    }
}

/// A person result shows the scored hit, with the initials of its name.
pub open spec fn shows_person(r: PersonResult, m: Scored<PersonHit>) -> bool {
    &&& r.person == m.hit
    &&& r.score == m.score
    &&& r.initials@ == upper_of(initial_letters(m.hit.name@))
}

/// Adds display initials to each scored person, keeping the order.
pub fn shape_people(matches: Vec<Scored<PersonHit>>) -> (r: Vec<PersonResult>)
    ensures
        r@.len() == matches@.len(),
        forall|i: int| 0 <= i < r@.len() ==> shows_person(#[trigger] r@[i], matches@[i]),
{
    let mut rest = matches;
    let mut shaped: Vec<PersonResult> = Vec::new();
    while rest.len() > 0
        invariant
            shaped@.len() + rest@.len() == matches@.len(),
            forall|i: int| 0 <= i < shaped@.len() ==> shows_person(#[trigger] shaped@[i], matches@[i]),
            forall|i: int| 0 <= i < rest@.len() ==> #[trigger] rest@[i] == matches@[shaped@.len() + i],
        decreases rest@.len(),
    {
        let ghost before = rest@;
        let m = rest.remove(0);
        assert(m == matches@[shaped@.len() as int]);
        assert forall|i: int| 0 <= i < rest@.len() implies #[trigger] rest@[i] == matches@[shaped@.len() + 1 + i] by {
            assert(rest@[i] == before[i + 1]);
        }
        let initials = person_initials(m.hit.name.as_str());
        shaped.push(PersonResult { person: m.hit, initials, score: m.score });
    }
    shaped
}

/// The scored list of one kind: the kept candidates, or nothing when the
/// lookup failed.
pub open spec fn kind_list<T>(kind: RecordKind, conv: RelevanceConvention, lookup: Result<Vec<Candidate<T>>, String>) -> Seq<Scored<T>> {
    match lookup {
        Ok(cs) => ranked(kind, conv, cs@),
        Err(_) => Seq::empty(),
    }
}

/// How many candidates a lookup returned (none when it failed).
pub open spec fn candidate_count<T>(lookup: Result<Vec<Candidate<T>>, String>) -> int {
    match lookup {
        Ok(cs) => cs@.len() as int,
        Err(_) => 0,
    }
}

/// The lookup's message, when it failed.
pub open spec fn failure_message<T>(lookup: Result<Vec<Candidate<T>>, String>) -> Seq<String> {
    match lookup {
        Ok(_) => Seq::empty(),
        Err(m) => seq![m],
    }
}

/// The kind, when its lookup failed.
pub open spec fn failed_kind<T>(kind: RecordKind, lookup: Result<Vec<Candidate<T>>, String>) -> Seq<RecordKind> {
    if lookup is Err { seq![kind] } else { Seq::empty() }
}

pub proof fn lemma_ranked_len<T>(kind: RecordKind, conv: RelevanceConvention, cs: Seq<Candidate<T>>)
    ensures
        ranked(kind, conv, cs).len() <= cs.len(),
    decreases cs.len(),
{
    if cs.len() > 0 {
        lemma_ranked_len(kind, conv, cs.drop_first());
    }
}

fn rank_lookup<T>(
    kind: RecordKind,
    conv: RelevanceConvention,
    lookup: Result<Vec<Candidate<T>>, String>,
    unavailable: &mut Vec<RecordKind>,
    messages: &mut Vec<String>,
) -> (r: Vec<Scored<T>>)
    ensures
        r@ == kind_list(kind, conv, lookup),
        r@.len() <= candidate_count(lookup),
        final(unavailable)@ == old(unavailable)@ + failed_kind(kind, lookup),
        final(messages)@ == old(messages)@ + failure_message(lookup),
{
    match lookup {
        Ok(cs) => {
            proof {
                lemma_ranked_len(kind, conv, cs@);
            }
            assert(unavailable@ + failed_kind(kind, lookup) =~= unavailable@);
            assert(messages@ + failure_message(lookup) =~= messages@);
            rank_candidates(kind, conv, cs)
        },
        Err(message) => {
            unavailable.push(kind);
            messages.push(message);
            assert(old(unavailable)@ + failed_kind(kind, lookup) =~= unavailable@);
            assert(old(messages)@ + failure_message(lookup) =~= messages@);
            Vec::new()
        },
    }
}

/// Merges the four kinds' lookups into one result. A failed lookup leaves
/// its kind's list empty and marks the kind unavailable; only when all four
/// failed is the search itself a failure.
pub fn assemble_results(
    query: String,
    conv: RelevanceConvention,
    people: Result<Vec<Candidate<PersonHit>>, String>,
    organizations: Result<Vec<Candidate<OrganizationHit>>, String>,
    locations: Result<Vec<Candidate<LocationHit>>, String>,
    productions: Result<Vec<Candidate<ProductionHit>>, String>,
) -> (r: Result<SearchResult, SearchError>)
    requires
        candidate_count(people) + candidate_count(organizations) + candidate_count(locations)
            + candidate_count(productions) <= usize::MAX,
    ensures
        r is Err <==> (people is Err && organizations is Err && locations is Err && productions is Err),
        r matches Err(e) ==> (e matches SearchError::BackendUnavailable(messages) && messages@
            == failure_message(people) + failure_message(organizations) + failure_message(locations)
            + failure_message(productions)),
        r matches Ok(res) ==> {
            &&& res.query == Some(query)
            &&& res.people@.len() == kind_list(RecordKind::Person, conv, people).len()
            &&& forall|i: int| 0 <= i < res.people@.len() ==> shows_person(
                #[trigger] res.people@[i],
                kind_list(RecordKind::Person, conv, people)[i],
            )
            &&& res.organizations@ == kind_list(RecordKind::Organization, conv, organizations)
            &&& res.locations@ == kind_list(RecordKind::Location, conv, locations)
            &&& res.productions@ == kind_list(RecordKind::Production, conv, productions)
            &&& res.total_results == res.people@.len() + res.organizations@.len() + res.locations@.len()
                + res.productions@.len()
            &&& res.has_results == (res.total_results > 0)
            &&& res.unavailable@ == failed_kind(RecordKind::Person, people) + failed_kind(
                RecordKind::Organization,
                organizations,
            ) + failed_kind(RecordKind::Location, locations) + failed_kind(
                RecordKind::Production,
                productions,
            )
        },
{
    let mut unavailable: Vec<RecordKind> = Vec::new();
    let mut messages: Vec<String> = Vec::new();
    let ghost (people_in, organizations_in, locations_in, productions_in) = (people, organizations, locations, productions);
    let scored_people = rank_lookup(RecordKind::Person, conv, people, &mut unavailable, &mut messages);
    let organizations = rank_lookup(RecordKind::Organization, conv, organizations, &mut unavailable, &mut messages);
    let locations = rank_lookup(RecordKind::Location, conv, locations, &mut unavailable, &mut messages);
    let productions = rank_lookup(RecordKind::Production, conv, productions, &mut unavailable, &mut messages);
    assert(messages@ =~= failure_message(people_in) + failure_message(organizations_in)
        + failure_message(locations_in) + failure_message(productions_in));
    if messages.len() == 4 {
        return Err(SearchError::BackendUnavailable(messages));
    }
    let people = shape_people(scored_people);
    let total = people.len() + organizations.len() + locations.len() + productions.len();
    assert(unavailable@ =~= failed_kind(RecordKind::Person, people_in) + failed_kind(RecordKind::Organization, organizations_in)
        + failed_kind(RecordKind::Location, locations_in) + failed_kind(RecordKind::Production, productions_in));
    Ok(SearchResult {
        query: Some(query),
        has_results: total > 0,
        total_results: total,
        people,
        organizations,
        locations,
        productions,
        unavailable,
    })
}

} // verus!
