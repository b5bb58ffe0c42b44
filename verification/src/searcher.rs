//! The search facade's decision core.
//!
//! The external index answers a nearest-neighbour query with scored ids;
//! this module holds what is verified around that call: mapping a chart
//! id to its index position, re-extracting the query chart's vector, and
//! filtering the answer — the query's own id is dropped and the rest cut
//! to the requested count, in the index's order.

use vstd::prelude::*;
use std::collections::HashMap;
use crate::features::spec_extract;
use crate::model::{MapInfo, Ratio};
use crate::parser::{parsed_chart_of, raw_chart_ok, spec_objects_from_raw};

verus! {

broadcast use vstd::std_specs::hash::group_hash_axioms;

/// Why a query failed.  Every failure is per-query; none corrupts the
/// index or the sidecar.
#[derive(Clone, Copy, Debug, PartialEq, Eq, Structural)]
pub enum SearchError {
    /// No index has been built yet.
    NotIndexed,
    /// The queried chart id has no indexed metadata.
    MapNotFound(i32),
    /// The query chart's file no longer parses as a chart.
    ChartUnreadable,
    /// The query chart no longer yields a feature vector.
    FeatureExtractionFailed,
}

/// The id-to-position lookup a metadata list defines: later entries win
/// when two charts share an id.
pub open spec fn spec_id_index(infos: Seq<MapInfo>) -> Map<i32, usize>
    decreases infos.len(),
{
    if infos.len() == 0 {
        Map::empty()
    } else {
        spec_id_index(infos.drop_last()).insert(
            infos.last().beatmap_id,
            (infos.len() - 1) as usize,
        )
    }
}

/// Every position the lookup yields is a valid index whose entry carries
/// the looked-up id.
pub proof fn lemma_id_index_sound(infos: Seq<MapInfo>)
    requires
        infos.len() <= usize::MAX,
    ensures
        forall|id: i32|
            #[trigger] spec_id_index(infos).contains_key(id) ==> spec_id_index(infos)[id]
                < infos.len() && infos[spec_id_index(infos)[id] as int].beatmap_id == id,
    decreases infos.len(),
{
    if infos.len() > 0 {
        lemma_id_index_sound(infos.drop_last());
        let prev = spec_id_index(infos.drop_last());
        let cur = spec_id_index(infos);
        assert forall|id: i32| #[trigger] cur.contains_key(id) implies cur[id] < infos.len()
            && infos[cur[id] as int].beatmap_id == id by {
            if id == infos.last().beatmap_id {
                assert(cur[id] == (infos.len() - 1) as usize);
            } else {
                assert(prev.contains_key(id));
                assert(cur[id] == prev[id]);
                assert(infos.drop_last()[prev[id] as int] == infos[prev[id] as int]);
            }
        }
    }
}

/// Builds the in-memory lookup from chart id to index position.
pub fn build_id_index(infos: &Vec<MapInfo>) -> (m: HashMap<i32, usize>)
    ensures
        m@ == spec_id_index(infos@),
{
    let mut m: HashMap<i32, usize> = HashMap::new();
    let mut i: usize = 0;
    while i < infos.len()
        invariant
            0 <= i <= infos@.len(),
            m@ == spec_id_index(infos@.take(i as int)),
        decreases infos@.len() - i,
    {
        m.insert(infos[i].beatmap_id, i);
        proof {
            assert(infos@.take(i + 1).drop_last() =~= infos@.take(i as int));
            assert(infos@.take(i + 1).last() == infos@[i as int]);
        }
        i = i + 1;
    }
    proof {
        assert(infos@.take(infos@.len() as int) =~= infos@);
    }
    m
}

/// Resolves a query id against the current state: the index position of
/// the chart, or the typed failure the caller reports.
pub fn resolve_query(indexed: bool, map_id_to_index: &HashMap<i32, usize>, beatmap_id: i32) -> (r:
    Result<usize, SearchError>)
    ensures
        !indexed ==> r == Err::<usize, SearchError>(SearchError::NotIndexed),
        indexed && !map_id_to_index@.contains_key(beatmap_id) ==> r == Err::<usize, SearchError>(
            SearchError::MapNotFound(beatmap_id),
        ),
        indexed && map_id_to_index@.contains_key(beatmap_id) ==> r == Ok::<usize, SearchError>(
            map_id_to_index@[beatmap_id],
        ),
{
    if !indexed {
        return Err(SearchError::NotIndexed);
    }
    match map_id_to_index.get(&beatmap_id) {
        Some(idx) => Ok(*idx),
        None => Err(SearchError::MapNotFound(beatmap_id)),
    }
}

/// Re-extracts the query chart's vector from its current text, guarding
/// against drift in the underlying file; reports the typed failure when
/// the text no longer parses or yields no vector.
pub fn extract_query_vector(content: &str) -> (r: Result<Vec<Ratio>, SearchError>)
    ensures
        match parsed_chart_of(content@) {
            None => r == Err::<Vec<Ratio>, SearchError>(SearchError::ChartUnreadable),
            Some(rc) => {
                if !raw_chart_ok(rc) {
                    r == Err::<Vec<Ratio>, SearchError>(SearchError::ChartUnreadable)
                } else {
                    match spec_extract(spec_objects_from_raw(rc.objects@)) {
                        None => r == Err::<Vec<Ratio>, SearchError>(
                            SearchError::FeatureExtractionFailed,
                        ),
                        Some(values) => r matches Ok(v) && v@ == values,
                    }
                }
            },
        },
{
    match crate::parser::parse_chart(content) {
        None => Err(SearchError::ChartUnreadable),
        Some(beatmap) => match crate::features::extract_features(&beatmap) {
            None => Err(SearchError::FeatureExtractionFailed),
            Some(v) => Ok(v),
        },
    }
}

/// The index's scored answers with the query's own id removed, in the
/// index's order.
pub open spec fn spec_search_hits<S>(results: Seq<(usize, S)>, q: usize) -> Seq<(usize, S)>
    decreases results.len(),
{
    if results.len() == 0 {
        Seq::empty()
    } else {
        let rest = spec_search_hits(results.drop_last(), q);
        if results.last().0 != q {
            rest.push(results.last())
        } else {
            rest
        }
    }
}

/// Nothing the filter keeps carries the query's own id, whatever the
/// index answered: a query never returns the chart it was asked about.
pub proof fn lemma_self_excluded<S>(results: Seq<(usize, S)>, q: usize)
    ensures
        forall|i: int|
            0 <= i < spec_search_hits(results, q).len() ==> (#[trigger] spec_search_hits(
                results,
                q,
            )[i]).0 != q,
    decreases results.len(),
{
    if results.len() > 0 {
        lemma_self_excluded(results.drop_last(), q);
        let hits = spec_search_hits(results, q);
        let prev = spec_search_hits(results.drop_last(), q);
        assert forall|i: int| 0 <= i < hits.len() implies (#[trigger] hits[i]).0 != q by {
            if i < prev.len() {
                assert(hits[i] == prev[i]);
            }
        }
    }
}

proof fn lemma_search_hits_step<S>(results: Seq<(usize, S)>, q: usize, k: int)
    requires
        0 <= k < results.len(),
    ensures
        spec_search_hits(results.take(k + 1), q) == (if results[k].0 != q {
            spec_search_hits(results.take(k), q).push(results[k])
        } else {
            spec_search_hits(results.take(k), q)
        }),
{
    assert(results.take(k + 1).drop_last() =~= results.take(k));
    assert(results.take(k + 1).last() == results[k]);
}

/// Filters the index's scored answer: drops the query's own id, keeps
/// the index's order, cuts to `k` results, and pairs each score with the
/// metadata its id points at.
pub fn perform_search<S: Copy>(
    results: &Vec<(usize, S)>,
    map_infos: &Vec<MapInfo>,
    query_map_index: usize,
    k: usize,
) -> (out: Vec<(S, MapInfo)>)
    requires
        forall|i: int| 0 <= i < results@.len() ==> (#[trigger] results@[i]).0 < map_infos@.len(),
    ensures
        ({
            let hits = spec_search_hits(results@, query_map_index);
            &&& out@.len() == (if hits.len() < k {
                hits.len() as int
            } else {
                k as int
            })
            &&& forall|i: int|
                0 <= i < out@.len() ==> (#[trigger] out@[i]).0 == hits[i].1 && out@[i].1
                    == map_infos@[hits[i].0 as int]
        }),
{
    let mut out: Vec<(S, MapInfo)> = Vec::new();
    let mut i: usize = 0;
    while i < results.len()
        invariant
            0 <= i <= results@.len(),
            forall|j: int| 0 <= j < results@.len() ==> (#[trigger] results@[j]).0
                < map_infos@.len(),
            ({
                let hits = spec_search_hits(results@.take(i as int), query_map_index);
                &&& out@.len() == (if hits.len() < k {
                    hits.len() as int
                } else {
                    k as int
                })
                &&& forall|j: int|
                    0 <= j < out@.len() ==> (#[trigger] out@[j]).0 == hits[j].1 && out@[j].1
                        == map_infos@[hits[j].0 as int]
            }),
        decreases results@.len() - i,
    {
        proof {
            lemma_search_hits_step(results@, query_map_index, i as int);
        }
        let (id, score) = results[i];
        if id != query_map_index && out.len() < k {
            out.push((score, map_infos[id].clone()));
        }
        proof {
            let ghost hits_new = spec_search_hits(results@.take(i + 1), query_map_index);
            let ghost hits_old = spec_search_hits(results@.take(i as int), query_map_index);
            if results@[i as int].0 != query_map_index && hits_old.len() >= k {
                assert(hits_new == hits_old.push(results@[i as int]));
            }
        }
        i = i + 1;
    }
    proof {
        assert(results@.take(results@.len() as int) =~= results@);
    }
    out
}

} // verus!
