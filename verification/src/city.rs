//! The city resolver: from a free-text city name to coordinates.
//!
//! A name is looked up in a reference table, first exactly and, on every
//! miss, by similarity: the most similar entry answers if its score lies
//! above a fixed threshold. What a similarity scan found, or that it found
//! nothing, is remembered, so that the same name is never scanned for twice.
//!
//! Coordinates and scores are doubles. They are carried as their IEEE-754
//! bit patterns: a coordinate is only handed through, and scores are finite
//! and non-negative, so their bit patterns order as the scores do.

use crate::similarity::{jaro_winkler_bits, similarity_bits};
use vstd::hash_map::StringHashMap;
use vstd::prelude::*;

verus! {

/// The bit pattern of 0.8, the score that a candidate has to exceed.
pub const SIMILARITY_THRESHOLD_BITS: u64 = 0x3FE9_9999_9999_999A;

/// A latitude and a longitude, each as the bit pattern of a double.
#[derive(Clone, Copy, Debug, PartialEq, Eq, Structural)]
pub struct Coordinates {
    pub latitude_bits: u64,
    pub longitude_bits: u64,
}

/// One line of the reference table.
#[derive(Debug)]
pub struct CityEntry {
    pub name: String,
    pub coordinates: Coordinates,
}

/// The content of a reference entry.
pub struct CityRecord {
    pub name: Seq<char>,
    pub coordinates: Coordinates,
}

impl View for CityEntry {
    type V = CityRecord;

    open spec fn view(&self) -> CityRecord {
        CityRecord { name: self.name@, coordinates: self.coordinates }
    }
}

/// The contents of a list of reference entries.
pub open spec fn records(entries: Seq<CityEntry>) -> Seq<CityRecord> {
    entries.map_values(|e: CityEntry| e@)
}

/// Whether `i` is the place of the entry named `name`.
pub open spec fn names_at(table: Seq<CityRecord>, name: Seq<char>, i: int) -> bool {
    0 <= i < table.len() && table[i].name == name
}

/// Whether the table has an entry named `name`.
pub open spec fn has_name(table: Seq<CityRecord>, name: Seq<char>) -> bool {
    exists|i: int| names_at(table, name, i)
}

/// The place of the entry named `name`, where there is one.
pub open spec fn place_of(table: Seq<CityRecord>, name: Seq<char>) -> int {
    choose|i: int| names_at(table, name, i)
}

/// No two entries have the same name.
pub open spec fn distinct_names(table: Seq<CityRecord>) -> bool {
    forall|i: int, j: int|
        0 <= i < table.len() && 0 <= j < table.len() && i != j ==> (#[trigger] table[i]).name != (
        #[trigger] table[j]).name
}

/// The table after an entry was inserted: a new name joins the end, a known
/// name keeps its place and gets the new coordinates.
pub open spec fn with_entry(table: Seq<CityRecord>, entry: CityRecord) -> Seq<CityRecord> {
    if has_name(table, entry.name) {
        table.update(place_of(table, entry.name), entry)
    } else {
        table.push(entry)
    }
}

/// The immutable reference table: city names, each with its coordinates.
/// The entries keep the order in which their names first came; a hash index
/// finds the place of a name.
pub struct CityTable {
    entries: Vec<CityEntry>,
    index: StringHashMap<usize>,
}

impl View for CityTable {
    type V = Seq<CityRecord>;

    closed spec fn view(&self) -> Seq<CityRecord> {
        records(self.entries@)
    }
}

impl CityTable {
    /// No name occurs twice, and the index knows the place of every name
    /// and of no other.
    pub closed spec fn wf(&self) -> bool {
        &&& distinct_names(self@)
        &&& forall|name: Seq<char>| #[trigger]
            self.index@.contains_key(name) <==> has_name(self@, name)
        &&& forall|name: Seq<char>| #[trigger]
            self.index@.contains_key(name) ==> names_at(self@, name, self.index@[name] as int)
    }

    /// In a well-formed table no name occurs twice.
    pub proof fn lemma_distinct_names(&self)
        requires
            self.wf(),
        ensures
            distinct_names(self@),
    {
    }

    /// A table without entries.
    pub fn new() -> (table: CityTable)
        ensures
            table.wf(),
            table@.len() == 0,
    {
        CityTable { entries: Vec::new(), index: StringHashMap::new() }
    }

    /// The number of entries.
    pub fn len(&self) -> (n: usize)
        ensures
            n == self@.len(),
    {
        self.entries.len()
    }

    /// The place of the entry named `name`, if there is one.
    pub fn position(&self, name: &str) -> (place: Option<usize>)
        requires
            self.wf(),
        ensures
            match place {
                Some(i) => has_name(self@, name@) && i == place_of(self@, name@),
                None => !has_name(self@, name@),
            },
    {
        match self.index.get(name) {
            Some(found) => {
                let i = *found;
                proof {
                    assert(self.index@.contains_key(name@));
                    assert(names_at(self@, name@, i as int));
                    let chosen = place_of(self@, name@);
                    assert(self@[chosen].name == self@[i as int].name);
                }
                Some(i)
            },
            None => {
                assert(!self.index@.contains_key(name@));
                None
            },
        }
    }

    /// The coordinates of the entry named exactly `name`, if there is one.
    pub fn get(&self, name: &str) -> (found: Option<Coordinates>)
        requires
            self.wf(),
        ensures
            found == if has_name(self@, name@) {
                Some(self@[place_of(self@, name@)].coordinates)
            } else {
                None
            },
    {
        match self.position(name) {
            Some(i) => Some(self.entries[i].coordinates),
            None => None,
        }
    }

    /// Inserts an entry. A name that the table already has keeps its place
    /// and takes the new coordinates.
    pub fn insert(&mut self, name: String, coordinates: Coordinates)
        requires
            old(self).wf(),
        ensures
            final(self).wf(),
            final(self)@ == with_entry(old(self)@, CityRecord { name: name@, coordinates }),
    {
        let place = self.position(name.as_str());
        let ghost entry = CityRecord { name: name@, coordinates };
        match place {
            Some(i) => {
                self.entries.set(i, CityEntry { name, coordinates });
                proof {
                    assert(self@ =~= old(self)@.update(i as int, entry));
                    assert forall|k: int| 0 <= k < self@.len() implies (#[trigger] self@[k]).name
                        == old(self)@[k].name by {}
                    assert forall|a: int, b: int|
                        0 <= a < self@.len() && 0 <= b < self@.len() && a != b implies (
                    #[trigger] self@[a]).name != (#[trigger] self@[b]).name by {
                        assert(self@[a].name == old(self)@[a].name);
                        assert(self@[b].name == old(self)@[b].name);
                    }
                    assert forall|other: Seq<char>| #[trigger]
                        self.index@.contains_key(other) <==> has_name(self@, other) by {
                        if has_name(self@, other) {
                            let k = place_of(self@, other);
                            assert(names_at(old(self)@, other, k));
                        }
                        if has_name(old(self)@, other) {
                            let k = place_of(old(self)@, other);
                            assert(names_at(self@, other, k));
                        }
                    }
                    assert forall|other: Seq<char>| #[trigger]
                        self.index@.contains_key(other) implies names_at(
                        self@,
                        other,
                        self.index@[other] as int,
                    ) by {
                        assert(names_at(old(self)@, other, old(self).index@[other] as int));
                    }
                }
            },
            None => {
                let place = self.entries.len();
                self.index.insert(name.clone(), place);
                self.entries.push(CityEntry { name, coordinates });
                proof {
                    assert(self@ =~= old(self)@.push(entry));
                    assert forall|a: int, b: int|
                        0 <= a < self@.len() && 0 <= b < self@.len() && a != b implies (
                    #[trigger] self@[a]).name != (#[trigger] self@[b]).name by {
                        if a < old(self)@.len() {
                            assert(self@[a] == old(self)@[a]);
                            assert(!names_at(old(self)@, entry.name, a));
                        }
                        if b < old(self)@.len() {
                            assert(self@[b] == old(self)@[b]);
                            assert(!names_at(old(self)@, entry.name, b));
                        }
                    }
                    assert forall|other: Seq<char>| #[trigger]
                        self.index@.contains_key(other) <==> has_name(self@, other) by {
                        if has_name(self@, other) {
                            let k = place_of(self@, other);
                            if k < old(self)@.len() {
                                assert(names_at(old(self)@, other, k));
                            }
                        }
                        if has_name(old(self)@, other) {
                            let k = place_of(old(self)@, other);
                            assert(names_at(self@, other, k));
                        }
                        if other == entry.name {
                            assert(names_at(self@, other, place as int));
                        }
                    }
                    assert forall|other: Seq<char>| #[trigger]
                        self.index@.contains_key(other) implies names_at(
                        self@,
                        other,
                        self.index@[other] as int,
                    ) by {
                        if other != entry.name {
                            assert(names_at(old(self)@, other, old(self).index@[other] as int));
                        }
                    }
                }
            },
        }
    }
}

/// The score of every entry against `query`, in table order.
pub open spec fn scores_of(table: Seq<CityRecord>, query: Seq<char>) -> Seq<u64> {
    Seq::new(table.len(), |i: int| jaro_winkler_bits(query, table[i].name))
}

/// Whether `i` is the place of the highest score. Among equal scores the
/// earliest place counts.
pub open spec fn is_best(scores: Seq<u64>, i: int) -> bool {
    &&& 0 <= i < scores.len()
    &&& forall|j: int| 0 <= j < scores.len() ==> scores[j] <= scores[i]
    &&& forall|j: int| 0 <= j < i ==> scores[j] < scores[i]
}

/// Whether `i` is the place of the highest score and that score lies above
/// the threshold.
pub open spec fn is_accepted(scores: Seq<u64>, threshold: u64, i: int) -> bool {
    is_best(scores, i) && scores[i] > threshold
}

/// The place of the highest score, if that score lies above the threshold.
pub open spec fn best_match(scores: Seq<u64>, threshold: u64) -> Option<int> {
    if exists|i: int| is_accepted(scores, threshold, i) {
        Some(choose|i: int| is_accepted(scores, threshold, i))
    } else {
        None
    }
}

/// At most one place holds the highest score first.
pub proof fn lemma_best_is_unique(scores: Seq<u64>, i: int, j: int)
    requires
        is_best(scores, i),
        is_best(scores, j),
    ensures
        i == j,
{
    if i < j {
        assert(scores[i] < scores[j]);
        assert(scores[j] <= scores[i]);
    } else if j < i {
        assert(scores[j] < scores[i]);
        assert(scores[i] <= scores[j]);
    }
}

/// Where some score lies above the threshold, the highest score does, and
/// its place is the best match.
pub proof fn lemma_some_score_is_best(scores: Seq<u64>, high: int)
    requires
        0 <= high < scores.len(),
    ensures
        exists|i: int| is_best(scores, i) && scores[i] >= scores[high],
    decreases scores.len(),
{
    if scores.len() == 1 {
        assert(is_best(scores, 0));
    } else {
        let init = scores.drop_last();
        let last = scores.len() - 1;
        lemma_some_score_is_best(init, if high < last { high } else { 0 });
        let b = choose|i: int| is_best(init, i) && init[i] >= init[if high < last { high } else { 0 }];
        assert forall|j: int| 0 <= j < init.len() implies scores[j] == init[j] by {}
        if scores[last] > scores[b] {
            assert forall|j: int| 0 <= j < scores.len() implies scores[j] <= scores[last] by {
                if j < last {
                    assert(init[j] <= init[b]);
                }
            }
            assert forall|j: int| 0 <= j < last implies scores[j] < scores[last] by {
                assert(init[j] <= init[b]);
            }
            assert(is_best(scores, last));
        } else {
            assert forall|j: int| 0 <= j < scores.len() implies scores[j] <= scores[b] by {
                if j < last {
                    assert(init[j] <= init[b]);
                }
            }
            assert forall|j: int| 0 <= j < b implies scores[j] < scores[b] by {
                assert(init[j] < init[b]);
            }
            assert(is_best(scores, b));
        }
    }
}

/// Picks the candidate with the highest score, the earliest among equals,
/// and accepts it only if its score lies above the threshold.
pub fn pick_best(scores: &Vec<u64>, threshold: u64) -> (best: Option<usize>)
    ensures
        match best {
            Some(i) => best_match(scores@, threshold) == Some(i as int),
            None => best_match(scores@, threshold) is None,
        },
{
    let mut highest: u64 = 0;
    let mut best: Option<usize> = None;
    let mut i: usize = 0;
    while i < scores.len()
        invariant
            0 <= i <= scores.len(),
            forall|j: int| 0 <= j < i ==> scores@[j] <= highest,
            match best {
                Some(b) => b < i && scores@[b as int] == highest && forall|j: int|
                    0 <= j < b ==> scores@[j] < highest,
                None => highest == 0,
            },
        decreases scores.len() - i,
    {
        if scores[i] > highest {
            highest = scores[i];
            best = Some(i);
        }
        i = i + 1;
    }
    if highest > threshold {
        proof {
            let b = best->0 as int;
            assert(is_accepted(scores@, threshold, b));
            let chosen = choose|k: int| is_accepted(scores@, threshold, k);
            lemma_best_is_unique(scores@, b, chosen);
        }
        best
    } else {
        proof {
            assert forall|k: int| !is_accepted(scores@, threshold, k) by {
                if 0 <= k < scores@.len() {
                    assert(scores@[k] <= highest);
                }
            }
        }
        None
    }
}

impl CityTable {
    /// Scores every entry against `query`.
    pub fn scores(&self, query: &str) -> (scores: Vec<u64>)
        ensures
            scores@ == scores_of(self@, query@),
    {
        let mut scores: Vec<u64> = Vec::new();
        let mut i: usize = 0;
        while i < self.entries.len()
            invariant
                0 <= i <= self.entries.len(),
                scores@.len() == i,
                forall|j: int|
                    0 <= j < i ==> scores@[j] == jaro_winkler_bits(query@, (#[trigger] self@[j]).name),
            decreases self.entries.len() - i,
        {
            let score = similarity_bits(query, self.entries[i].name.as_str());
            scores.push(score);
            i = i + 1;
        }
        assert(scores@ =~= scores_of(self@, query@));
        scores
    }

    /// The coordinates of the entry most similar to `query`, if its score
    /// lies above the threshold.
    pub fn closest(&self, query: &str) -> (found: Option<Coordinates>)
        ensures
            found == closest_match(self@, query@),
    {
        let scores = self.scores(query);
        match pick_best(&scores, SIMILARITY_THRESHOLD_BITS) {
            Some(i) => {
                assert(is_accepted(scores@, SIMILARITY_THRESHOLD_BITS, i as int));
                Some(self.entries[i].coordinates)
            },
            None => None,
        }
    }
}

/// The coordinates of the entry most similar to `query`, if its score lies
/// above the threshold.
pub open spec fn closest_match(table: Seq<CityRecord>, query: Seq<char>) -> Option<Coordinates> {
    match best_match(scores_of(table, query), SIMILARITY_THRESHOLD_BITS) {
        Some(i) => Some(table[i].coordinates),
        None => None,
    }
}

/// What a name resolves to: the coordinates of the entry with exactly that
/// name if there is one, and else those of the most similar entry if it is
/// similar enough.
pub open spec fn resolve(table: Seq<CityRecord>, query: Seq<char>) -> Option<Coordinates> {
    if has_name(table, query) {
        Some(table[place_of(table, query)].coordinates)
    } else {
        closest_match(table, query)
    }
}

/// Whether resolving `query` takes a similarity scan of the whole table: it
/// does on every miss of the exact lookup.
pub open spec fn needs_scan(table: Seq<CityRecord>, query: Seq<char>) -> bool {
    !has_name(table, query)
}

} // verus!
