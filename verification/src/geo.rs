//! Reading the reference table, and placing visitor counts on the map.

use crate::city::{resolve, CityRecord, Coordinates};
use crate::resolver::{CityResolver, ResolverModel};
use crate::text::{fields, split_fields, texts};
use vstd::prelude::*;

verus! {

/// What one line of the reference file says of a city: its name and its
/// coordinates as written.
#[derive(Debug)]
pub struct CityLine {
    pub name: String,
    pub latitude: String,
    pub longitude: String,
}

/// The content of a reference line: of its tab-separated fields the third
/// is the name, the fifth the latitude and the sixth the longitude. A line
/// with fewer than six fields says nothing.
pub open spec fn city_line(line: Seq<char>) -> Option<(Seq<char>, Seq<char>, Seq<char>)> {
    let parts = fields(line, '\t');
    if parts.len() > 5 {
        Some((parts[2], parts[4], parts[5]))
    } else {
        None
    }
}

/// Reads one line of the reference file.
pub fn parse_city_line(line: &str) -> (parsed: Option<CityLine>)
    ensures
        match parsed {
            Some(city) => city_line(line@) == Some((city.name@, city.latitude@, city.longitude@)),
            None => city_line(line@) is None,
        },
{
    let parts = split_fields(line, '\t');
    if parts.len() > 5 {
        proof {
            assert(texts(parts@)[2] == parts@[2]@);
            assert(texts(parts@)[4] == parts@[4]@);
            assert(texts(parts@)[5] == parts@[5]@);
        }
        Some(
            CityLine {
                name: parts[2].clone(),
                latitude: parts[4].clone(),
                longitude: parts[5].clone(),
            },
        )
    } else {
        None
    }
}

/// How many collectors a city had.
#[derive(Debug)]
pub struct CityCount {
    pub city: String,
    pub count: i64,
}

/// The colour of the marks on the map.
pub const MAP_COLOR: &'static str = "#fa4f33";

/// One mark on the map: a city, where it lies, how many collectors it had,
/// and the highest count of any city, by which the mark is scaled.
#[derive(Debug)]
pub struct MapPoint {
    pub city: String,
    pub coordinates: Coordinates,
    pub count: i64,
    pub max_count: i64,
}

/// The content of a mark on the map.
pub struct MapPointView {
    pub city: Seq<char>,
    pub coordinates: Coordinates,
    pub count: i64,
    pub max_count: i64,
}

impl View for MapPoint {
    type V = MapPointView;

    open spec fn view(&self) -> MapPointView {
        MapPointView {
            city: self.city@,
            coordinates: self.coordinates,
            count: self.count,
            max_count: self.max_count,
        }
    }
}

/// The contents of a list of marks.
pub open spec fn point_views(points: Seq<MapPoint>) -> Seq<MapPointView> {
    points.map_values(|p: MapPoint| p@)
}

/// Whether `m` is the highest count: one where there are no counts.
pub open spec fn is_max_count(counts: Seq<CityCount>, m: i64) -> bool {
    if counts.len() == 0 {
        m == 1
    } else {
        &&& exists|i: int| 0 <= i < counts.len() && (#[trigger] counts[i]).count == m
        &&& forall|i: int| 0 <= i < counts.len() ==> (#[trigger] counts[i]).count <= m
    }
}

/// The highest count of any city, or one where there are no cities.
pub fn max_count(counts: &Vec<CityCount>) -> (m: i64)
    ensures
        is_max_count(counts@, m),
{
    if counts.len() == 0 {
        return 1;
    }
    let mut m: i64 = counts[0].count;
    let mut i: usize = 1;
    while i < counts.len()
        invariant
            1 <= i <= counts.len(),
            exists|k: int| 0 <= k < i && (#[trigger] counts@[k]).count == m,
            forall|k: int| 0 <= k < i ==> (#[trigger] counts@[k]).count <= m,
        decreases counts.len() - i,
    {
        if counts[i].count > m {
            m = counts[i].count;
        }
        i = i + 1;
    }
    m
}

/// The marks for a list of city counts: one for each city that resolves to
/// coordinates, in the order of the list.
pub open spec fn located(table: Seq<CityRecord>, counts: Seq<CityCount>, max: i64) -> Seq<
    MapPointView,
>
    decreases counts.len(),
{
    if counts.len() == 0 {
        Seq::empty()
    } else {
        let before = located(table, counts.drop_last(), max);
        let last = counts.last();
        match resolve(table, last.city@) {
            Some(coordinates) => before.push(
                MapPointView { city: last.city@, coordinates, count: last.count, max_count: max },
            ),
            None => before,
        }
    }
}

/// The resolver after it was asked for each city of a list in turn.
pub open spec fn after_queries(m: ResolverModel, counts: Seq<CityCount>) -> ResolverModel
    decreases counts.len(),
{
    if counts.len() == 0 {
        m
    } else {
        after_queries(m, counts.drop_last()).after_query(counts.last().city@)
    }
}

/// Asking the resolver never changes its table.
pub proof fn lemma_queries_keep_table(m: ResolverModel, counts: Seq<CityCount>)
    ensures
        after_queries(m, counts).table == m.table,
    decreases counts.len(),
{
    if counts.len() > 0 {
        lemma_queries_keep_table(m, counts.drop_last());
    }
}

/// Places the city counts on the map: every city that the resolver finds
/// coordinates for becomes a mark, in the order of the counts, and the
/// others are left out.
pub fn map_points(counts: &Vec<CityCount>, resolver: &mut CityResolver) -> (points: Vec<MapPoint>)
    requires
        old(resolver).wf(),
    ensures
        final(resolver).wf(),
        final(resolver)@ == after_queries(old(resolver)@, counts@),
        exists|max: i64|
            is_max_count(counts@, max) && point_views(points@) == located(
                old(resolver)@.table,
                counts@,
                max,
            ),
{
    let max = max_count(counts);
    let mut points: Vec<MapPoint> = Vec::new();
    let mut i: usize = 0;
    let ghost table = resolver@.table;
    proof {
        assert(counts@.take(0) =~= Seq::<CityCount>::empty());
        assert(point_views(points@) =~= Seq::<MapPointView>::empty());
    }
    while i < counts.len()
        invariant
            resolver.wf(),
            0 <= i <= counts.len(),
            table == old(resolver)@.table,
            resolver@ == after_queries(old(resolver)@, counts@.take(i as int)),
            point_views(points@) == located(table, counts@.take(i as int), max),
        decreases counts.len() - i,
    {
        let ghost before = point_views(points@);
        proof {
            lemma_queries_keep_table(old(resolver)@, counts@.take(i as int));
            assert(counts@.take(i as int + 1).drop_last() =~= counts@.take(i as int));
            assert(counts@.take(i as int + 1).last() == counts@[i as int]);
        }
        match resolver.get_city_coordinates(counts[i].city.as_str()) {
            Some(coordinates) => {
                points.push(
                    MapPoint {
                        city: counts[i].city.clone(),
                        coordinates,
                        count: counts[i].count,
                        max_count: max,
                    },
                );
                proof {
                    assert(point_views(points@) =~= before.push(
                        MapPointView {
                            city: counts@[i as int].city@,
                            coordinates,
                            count: counts@[i as int].count,
                            max_count: max,
                        },
                    ));
                }
            },
            None => {},
        }
        i = i + 1;
    }
    proof {
        assert(counts@.take(counts.len() as int) =~= counts@);
    }
    points
}

} // verus!
