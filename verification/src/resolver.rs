//! The resolver as a service: a reference table and the memory of what
//! earlier similarity scans found.

use crate::city::{
    closest_match, distinct_names, is_accepted, is_best, lemma_best_is_unique,
    lemma_some_score_is_best, names_at, needs_scan, place_of, resolve, scores_of, CityRecord,
    CityTable, Coordinates, SIMILARITY_THRESHOLD_BITS,
};
use vstd::hash_map::StringHashMap;
use vstd::prelude::*;

verus! {

/// A scan counter one higher, unless it has reached the largest value it
/// can hold.
pub open spec fn counted(scans: nat) -> nat {
    if scans < u64::MAX {
        scans + 1
    } else {
        scans
    }
}

/// The mathematical state of a resolver.
pub struct ResolverModel {
    pub table: Seq<CityRecord>,
    /// The remembered answers, by the name that was asked for.
    pub cache: Map<Seq<char>, Option<Coordinates>>,
    /// The number of similarity scans made so far.
    pub scans: nat,
}

impl ResolverModel {
    /// Every remembered answer is what its name resolves to, and it was
    /// found by a scan.
    pub open spec fn wf(self) -> bool {
        forall|name: Seq<char>| #[trigger]
            self.cache.contains_key(name) ==> {
                &&& needs_scan(self.table, name)
                &&& self.cache[name] == resolve(self.table, name)
            }
    }

    /// Whether a query for `name` scans the table: it does unless the name
    /// is in the table as it stands or has been scanned for before.
    pub open spec fn scans_for(self, name: Seq<char>) -> bool {
        needs_scan(self.table, name) && !self.cache.contains_key(name)
    }

    /// The state after a query for `name`: a scan is counted and its answer
    /// remembered; a query that takes no scan changes nothing.
    pub open spec fn after_query(self, name: Seq<char>) -> ResolverModel {
        if self.scans_for(name) {
            ResolverModel {
                table: self.table,
                cache: self.cache.insert(name, resolve(self.table, name)),
                scans: counted(self.scans),
            }
        } else {
            self
        }
    }
}

/// An exact name resolves to its own coordinates, whatever other names are
/// similar to it.
pub proof fn lemma_exact_name_resolves(table: Seq<CityRecord>, i: int)
    requires
        distinct_names(table),
        0 <= i < table.len(),
    ensures
        resolve(table, table[i].name) == Some(table[i].coordinates),
        !needs_scan(table, table[i].name),
{
    assert(names_at(table, table[i].name, i));
    let chosen = place_of(table, table[i].name);
    assert(table[chosen].name == table[i].name);
}

/// A name that is not in the table resolves to the coordinates of the most
/// similar entry if that entry's score lies above the threshold, and to
/// nothing exactly when no score does.
pub proof fn lemma_similar_name_resolves(table: Seq<CityRecord>, query: Seq<char>)
    requires
        needs_scan(table, query),
    ensures
        resolve(table, query) == closest_match(table, query),
        resolve(table, query) is None <==> forall|i: int|
            0 <= i < table.len() ==> scores_of(table, query)[i] <= SIMILARITY_THRESHOLD_BITS,
        forall|i: int|
            is_accepted(scores_of(table, query), SIMILARITY_THRESHOLD_BITS, i) ==> resolve(
                table,
                query,
            ) == Some(table[i].coordinates),
{
    let scores = scores_of(table, query);
    let threshold = SIMILARITY_THRESHOLD_BITS;
    assert forall|i: int| is_accepted(scores, threshold, i) implies resolve(table, query) == Some(
        table[i].coordinates,
    ) by {
        let chosen = choose|k: int| is_accepted(scores, threshold, k);
        lemma_best_is_unique(scores, i, chosen);
    }
    if forall|i: int| 0 <= i < table.len() ==> scores[i] <= threshold {
        assert forall|k: int| !is_accepted(scores, threshold, k) by {
            if 0 <= k < scores.len() {
                assert(scores[k] <= threshold);
            }
        }
    } else {
        let high = choose|i: int| 0 <= i < table.len() && scores[i] > threshold;
        lemma_some_score_is_best(scores, high);
        let best = choose|i: int| is_best(scores, i) && scores[i] >= scores[high];
        assert(is_accepted(scores, threshold, best));
    }
}

/// A repeated query gives the same answer and takes no further scan: after
/// a query for `name`, another one changes nothing.
pub proof fn lemma_repeated_query_is_remembered(m: ResolverModel, name: Seq<char>)
    requires
        m.wf(),
    ensures
        m.after_query(name).wf(),
        resolve(m.after_query(name).table, name) == resolve(m.table, name),
        !m.after_query(name).scans_for(name),
        m.after_query(name).after_query(name) == m.after_query(name),
{
}

/// A city resolver: the reference table, the remembered answers, and a
/// count of the scans made.
pub struct CityResolver {
    table: CityTable,
    cache: StringHashMap<Option<Coordinates>>,
    scans: u64,
}

impl View for CityResolver {
    type V = ResolverModel;

    closed spec fn view(&self) -> ResolverModel {
        ResolverModel { table: self.table@, cache: self.cache@, scans: self.scans as nat }
    }
}

impl CityResolver {
    /// The table and the memory are consistent.
    pub closed spec fn wf(&self) -> bool {
        &&& self.table.wf()
        &&& self@.wf()
    }

    /// A well-formed resolver has a well-formed state.
    pub proof fn lemma_wf_model(&self)
        requires
            self.wf(),
        ensures
            self@.wf(),
            distinct_names(self@.table),
    {
        self.table.lemma_distinct_names();
    }

    /// A resolver over `table` that remembers nothing yet.
    pub fn new(table: CityTable) -> (resolver: CityResolver)
        requires
            table.wf(),
        ensures
            resolver.wf(),
            resolver@ == (ResolverModel { table: table@, cache: Map::empty(), scans: 0 }),
    {
        CityResolver { table, cache: StringHashMap::new(), scans: 0 }
    }

    /// The answer remembered for `name`, if a scan was made for it before.
    pub fn remembered(&self, name: &str) -> (hit: Option<Option<Coordinates>>)
        requires
            self.wf(),
        ensures
            match hit {
                Some(result) => self@.cache.contains_key(name@) && result == resolve(
                    self@.table,
                    name@,
                ),
                None => !self@.cache.contains_key(name@),
            },
    {
        match self.cache.get(name) {
            Some(result) => Some(*result),
            None => None,
        }
    }

    /// Resolves a city name to coordinates.
    ///
    /// The answer depends on the table and the name alone: the entry of
    /// exactly that name if there is one, and else the most similar entry
    /// if it is similar enough. A name that is neither in the table nor
    /// remembered costs one scan of the table, and its answer, found or
    /// not, is remembered from then on; every other query leaves the
    /// resolver as it was.
    pub fn get_city_coordinates(&mut self, city_name: &str) -> (found: Option<Coordinates>)
        requires
            old(self).wf(),
        ensures
            final(self).wf(),
            found == resolve(old(self)@.table, city_name@),
            final(self)@ == old(self)@.after_query(city_name@),
    {
        match self.remembered(city_name) {
            Some(result) => {
                return result;
            },
            None => {},
        }
        match self.table.get(city_name) {
            Some(coordinates) => {
                return Some(coordinates);
            },
            None => {},
        }
        let result = self.table.closest(city_name);
        self.cache.insert(String::from_str(city_name), result);
        if self.scans < u64::MAX {
            self.scans = self.scans + 1;
        }
        result
    }

    /// The number of similarity scans made so far; it stops counting at the
    /// largest value it can hold.
    pub fn scan_count(&self) -> (n: u64)
        ensures
            n == self@.scans,
    {
        self.scans
    }

    /// The number of remembered answers.
    pub fn remembered_len(&self) -> (n: usize)
        ensures
            n == self@.cache.len(),
    {
        self.cache.len()
    }

    /// The reference table.
    pub fn table(&self) -> (table: &CityTable)
        ensures
            table@ == self@.table,
    {
        &self.table
    }
}

} // verus!
