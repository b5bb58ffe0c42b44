//! The indexing pipeline's decision core.
//!
//! Discovery, parallel scheduling and the vector index itself live with
//! the caller; this module holds everything that can be verified: which
//! discovered paths are chart files, what one file's text contributes to
//! the run, how per-file outcomes are collected into aligned vector and
//! metadata lists, how the progress counters move, and how the sidecar
//! path and the cluster and probe counts are derived.

use vstd::prelude::*;
use crate::features::{extract_features, spec_extract};
use crate::model::{IndexingProgress, MapInfo, Ratio};
use crate::parser::{chart_from_raw, parse_chart_text, parsed_chart_of, raw_chart_ok, spec_objects_from_raw, RawChart};

verus! {

/// What one discovered file contributed to a run: a (vector, metadata)
/// pair, or the reason it was skipped.  Skips never abort the run.
#[derive(Debug)]
pub enum ChartOutcome {
    /// The file parsed, fit the model and yielded a feature vector.
    Indexed { vector: Vec<Ratio>, info: MapInfo },
    /// The text was not a readable chart.
    ParseFailed,
    /// The parsed chart's geometry did not fit the model.
    InvalidGeometry,
    /// The chart had no objects, so no vector exists for it.
    EmptyChart,
}

/// How a per-file outcome must relate to what the parser said about the
/// file's text: the exact contract of [`process_chart_text`].
pub open spec fn outcome_matches(parsed: Option<RawChart>, path: String, r: ChartOutcome) -> bool {
    match parsed {
        None => r is ParseFailed,
        Some(rc) => {
            if !raw_chart_ok(rc) {
                r is InvalidGeometry
            } else {
                let objs = spec_objects_from_raw(rc.objects@);
                match spec_extract(objs) {
                    None => r is EmptyChart,
                    Some(values) => r matches ChartOutcome::Indexed { vector, info } && {
                        &&& vector@ == values
                        &&& info.path == path
                        &&& info.beatmap_id == rc.beatmap_id
                        &&& info.beatmapset_id == rc.beatmapset_id
                        &&& info.title == rc.title
                        &&& info.artist == rc.artist
                        &&& info.difficulty_name == rc.difficulty_name
                    },
                }
            }
        },
    }
}

/// Parses one file's text and extracts its feature vector and metadata;
/// reports the reason instead when the file contributes nothing.
pub fn process_chart_text(content: &str, path: String) -> (r: ChartOutcome)
    ensures
        outcome_matches(parsed_chart_of(content@), path, r),
{
    let raw = match parse_chart_text(content) {
        None => {
            return ChartOutcome::ParseFailed;
        },
        Some(rc) => rc,
    };
    match chart_from_raw(raw) {
        None => ChartOutcome::InvalidGeometry,
        Some(beatmap) => {
            match extract_features(&beatmap) {
                None => ChartOutcome::EmptyChart,
                Some(vector) => {
                    let info = MapInfo {
                        path,
                        beatmap_id: beatmap.beatmap_id,
                        beatmapset_id: beatmap.beatmapset_id,
                        title: beatmap.title,
                        artist: beatmap.artist,
                        difficulty_name: beatmap.difficulty_name,
                    };
                    ChartOutcome::Indexed { vector, info }
                },
            }
        },
    }
}

/// The surviving (vector, metadata) pairs of a run, in input order.
pub open spec fn survivor_pairs(s: Seq<ChartOutcome>) -> Seq<(Vec<Ratio>, MapInfo)>
    decreases s.len(),
{
    if s.len() == 0 {
        Seq::empty()
    } else {
        let rest = survivor_pairs(s.drop_last());
        match s.last() {
            ChartOutcome::Indexed { vector, info } => rest.push((vector, info)),
            _ => rest,
        }
    }
}

/// How many outcomes in `s` satisfy `p`.
pub open spec fn count_outcomes(s: Seq<ChartOutcome>, p: spec_fn(ChartOutcome) -> bool) -> int
    decreases s.len(),
{
    if s.len() == 0 {
        0
    } else {
        count_outcomes(s.drop_last(), p) + if p(s.last()) {
            1int
        } else {
            0int
        }
    }
}

pub open spec fn is_parse_failed(o: ChartOutcome) -> bool {
    o is ParseFailed
}

pub open spec fn is_invalid_geometry(o: ChartOutcome) -> bool {
    o is InvalidGeometry
}

pub open spec fn is_empty_chart(o: ChartOutcome) -> bool {
    o is EmptyChart
}

pub open spec fn parse_failed_pred() -> spec_fn(ChartOutcome) -> bool {
    |o: ChartOutcome| is_parse_failed(o)
}

pub open spec fn invalid_geometry_pred() -> spec_fn(ChartOutcome) -> bool {
    |o: ChartOutcome| is_invalid_geometry(o)
}

pub open spec fn empty_chart_pred() -> spec_fn(ChartOutcome) -> bool {
    |o: ChartOutcome| is_empty_chart(o)
}

/// Aggregated tally of one run: how many files survived and how many
/// were skipped, by reason.
#[derive(Clone, Copy, Debug, PartialEq, Eq, Structural)]
pub struct RunReport {
    pub indexed: u64,
    pub parse_failed: u64,
    pub invalid_geometry: u64,
    pub empty_charts: u64,
}

proof fn lemma_count_outcomes_step(s: Seq<ChartOutcome>, p: spec_fn(ChartOutcome) -> bool, k: int)
    requires
        0 <= k < s.len(),
    ensures
        count_outcomes(s.take(k + 1), p) == count_outcomes(s.take(k), p) + if p(s[k]) {
            1int
        } else {
            0int
        },
{
    assert(s.take(k + 1).drop_last() =~= s.take(k));
    assert(s.take(k + 1).last() == s[k]);
}

proof fn lemma_survivor_pairs_step(s: Seq<ChartOutcome>, k: int)
    requires
        0 <= k < s.len(),
    ensures
        survivor_pairs(s.take(k + 1)) == (match s[k] {
            ChartOutcome::Indexed { vector, info } => survivor_pairs(s.take(k)).push(
                (vector, info),
            ),
            _ => survivor_pairs(s.take(k)),
        }),
{
    assert(s.take(k + 1).drop_last() =~= s.take(k));
    assert(s.take(k + 1).last() == s[k]);
}

proof fn lemma_survivor_pairs_len(s: Seq<ChartOutcome>)
    ensures
        survivor_pairs(s).len() <= s.len(),
    decreases s.len(),
{
    if s.len() > 0 {
        lemma_survivor_pairs_len(s.drop_last());
    }
}

proof fn lemma_count_outcomes_bound(s: Seq<ChartOutcome>, p: spec_fn(ChartOutcome) -> bool)
    ensures
        0 <= count_outcomes(s, p) <= s.len(),
    decreases s.len(),
{
    if s.len() > 0 {
        lemma_count_outcomes_bound(s.drop_last(), p);
    }
}

/// Splits the per-file outcomes, kept in input order, into the vector
/// list and the metadata list, which stay aligned position by position,
/// plus the tally of skips.
pub fn collect_outcomes(results: Vec<ChartOutcome>) -> (out: (
    Vec<Vec<Ratio>>,
    Vec<MapInfo>,
    RunReport,
))
    ensures
        out.0@.len() == survivor_pairs(results@).len(),
        out.1@.len() == survivor_pairs(results@).len(),
        forall|i: int|
            0 <= i < out.0@.len() ==> #[trigger] out.0@[i] == survivor_pairs(results@)[i].0,
        forall|i: int|
            0 <= i < out.1@.len() ==> #[trigger] out.1@[i] == survivor_pairs(results@)[i].1,
        out.2.indexed == survivor_pairs(results@).len(),
        out.2.parse_failed == count_outcomes(results@, parse_failed_pred()),
        out.2.invalid_geometry == count_outcomes(results@, invalid_geometry_pred()),
        out.2.empty_charts == count_outcomes(results@, empty_chart_pred()),
{
    let ghost all = results@;
    let mut results = results;
    let total_in = results.len();
    proof {
        assert(all.len() == total_in);
    }
    let mut vectors: Vec<Vec<Ratio>> = Vec::new();
    let mut infos: Vec<MapInfo> = Vec::new();
    let mut parse_failed: u64 = 0;
    let mut invalid_geometry: u64 = 0;
    let mut empty_charts: u64 = 0;
    let ghost mut k: int = 0;
    while results.len() > 0
        invariant
            all.len() <= usize::MAX,
            0 <= k <= all.len(),
            results@ == all.skip(k),
            vectors@.len() == infos@.len() == survivor_pairs(all.take(k)).len(),
            forall|i: int|
                0 <= i < vectors@.len() ==> #[trigger] vectors@[i] == survivor_pairs(
                    all.take(k),
                )[i].0,
            forall|i: int|
                0 <= i < infos@.len() ==> #[trigger] infos@[i] == survivor_pairs(all.take(k))[i].1,
            parse_failed == count_outcomes(all.take(k), parse_failed_pred()),
            invalid_geometry == count_outcomes(all.take(k), invalid_geometry_pred()),
            empty_charts == count_outcomes(all.take(k), empty_chart_pred()),
        decreases results@.len(),
    {
        let outcome = results.remove(0);
        proof {
            assert(outcome == all[k]);
            assert(results@ =~= all.skip(k + 1));
            assert(all.take(k + 1).drop_last() =~= all.take(k));
            assert(all.take(k + 1).last() == all[k]);
            lemma_survivor_pairs_len(all.take(k));
            lemma_count_outcomes_bound(all.take(k), parse_failed_pred());
            lemma_count_outcomes_bound(all.take(k), invalid_geometry_pred());
            lemma_count_outcomes_bound(all.take(k), empty_chart_pred());
        }
        proof {
            assert(parse_failed_pred()(all[k]) == is_parse_failed(all[k]));
            assert(invalid_geometry_pred()(all[k]) == is_invalid_geometry(all[k]));
            assert(empty_chart_pred()(all[k]) == is_empty_chart(all[k]));
            lemma_count_outcomes_step(all, parse_failed_pred(), k);
            lemma_count_outcomes_step(all, invalid_geometry_pred(), k);
            lemma_count_outcomes_step(all, empty_chart_pred(), k);
            lemma_survivor_pairs_step(all, k);
        }
        match outcome {
            ChartOutcome::Indexed { vector, info } => {
                vectors.push(vector);
                infos.push(info);
            },
            ChartOutcome::ParseFailed => {
                parse_failed = parse_failed + 1;
            },
            ChartOutcome::InvalidGeometry => {
                invalid_geometry = invalid_geometry + 1;
            },
            ChartOutcome::EmptyChart => {
                empty_charts = empty_charts + 1;
            },
        }
        proof {
            k = k + 1;
        }
    }
    proof {
        assert(all.take(k) =~= all);
        lemma_survivor_pairs_len(all);
    }
    let indexed: u64 = vectors.len() as u64;
    let report = RunReport { indexed, parse_failed, invalid_geometry, empty_charts };
    (vectors, infos, report)
}

/// The pipeline after parsing is a pure function: two outcome lists that
/// both match the same parses and paths survive identically — same
/// count, and at every position the same metadata and the same feature
/// values.
pub proof fn lemma_pipeline_deterministic(
    parses: Seq<Option<RawChart>>,
    paths: Seq<String>,
    r1: Seq<ChartOutcome>,
    r2: Seq<ChartOutcome>,
)
    requires
        r1.len() == parses.len(),
        r2.len() == parses.len(),
        paths.len() == parses.len(),
        forall|i: int| 0 <= i < parses.len() ==> outcome_matches(parses[i], paths[i], #[trigger] r1[i]),
        forall|i: int| 0 <= i < parses.len() ==> outcome_matches(parses[i], paths[i], #[trigger] r2[i]),
    ensures
        survivor_pairs(r1).len() == survivor_pairs(r2).len(),
        forall|i: int|
            0 <= i < survivor_pairs(r1).len() ==> (#[trigger] survivor_pairs(r1)[i].0)@
                == survivor_pairs(r2)[i].0@,
        forall|i: int|
            0 <= i < survivor_pairs(r1).len() ==> (#[trigger] survivor_pairs(r1)[i].1)
                == survivor_pairs(r2)[i].1,
    decreases parses.len(),
{
    if parses.len() > 0 {
        let n = parses.len() as int;
        assert forall|i: int| 0 <= i < n - 1 implies outcome_matches(
            parses.drop_last()[i],
            paths.drop_last()[i],
            #[trigger] r1.drop_last()[i],
        ) by {
            assert(r1.drop_last()[i] == r1[i]);
            assert(outcome_matches(parses[i], paths[i], r1[i]));
        }
        assert forall|i: int| 0 <= i < n - 1 implies outcome_matches(
            parses.drop_last()[i],
            paths.drop_last()[i],
            #[trigger] r2.drop_last()[i],
        ) by {
            assert(r2.drop_last()[i] == r2[i]);
            assert(outcome_matches(parses[i], paths[i], r2[i]));
        }
        lemma_pipeline_deterministic(
            parses.drop_last(),
            paths.drop_last(),
            r1.drop_last(),
            r2.drop_last(),
        );
        assert(outcome_matches(parses[n - 1], paths[n - 1], r1[n - 1]));
        assert(outcome_matches(parses[n - 1], paths[n - 1], r2[n - 1]));
    }
}

/// A path names a chart file: it ends in ".osu" and the final component
/// has a nonempty stem before that dot.
pub open spec fn spec_is_chart_path(s: Seq<char>) -> bool {
    &&& s.len() >= 5
    &&& s[s.len() - 4] == '.'
    &&& s[s.len() - 3] == 'o'
    &&& s[s.len() - 2] == 's'
    &&& s[s.len() - 1] == 'u'
    &&& s[s.len() - 5] != '/'
    &&& s[s.len() - 5] != '\\'
}

/// Whether a discovered path names a chart file.
pub fn is_chart_path(s: &str) -> (r: bool)
    ensures
        r == spec_is_chart_path(s@),
{
    let n = s.unicode_len();
    if n < 5 {
        return false;
    }
    let dot = s.get_char(n - 4);
    let c_o = s.get_char(n - 3);
    let c_s = s.get_char(n - 2);
    let c_u = s.get_char(n - 1);
    let before = s.get_char(n - 5);
    dot == '.' && c_o == 'o' && c_s == 's' && c_u == 'u' && before != '/' && before != '\\'
}

/// The chart files among the discovered paths, in discovery order.
pub open spec fn spec_kept_charts(paths: Seq<String>) -> Seq<String>
    decreases paths.len(),
{
    if paths.len() == 0 {
        Seq::empty()
    } else {
        let rest = spec_kept_charts(paths.drop_last());
        if spec_is_chart_path(paths.last()@) {
            rest.push(paths.last())
        } else {
            rest
        }
    }
}

/// The chart files to process: the kept paths, cut to the limit when one
/// is set.
pub open spec fn spec_selected_charts(paths: Seq<String>, limit: Option<usize>) -> Seq<String> {
    let kept = spec_kept_charts(paths);
    match limit {
        Some(l) => if l < kept.len() {
            kept.take(l as int)
        } else {
            kept
        },
        None => kept,
    }
}

proof fn lemma_kept_charts_step(paths: Seq<String>, k: int)
    requires
        0 <= k < paths.len(),
    ensures
        spec_kept_charts(paths.take(k + 1)) == (if spec_is_chart_path(paths[k]@) {
            spec_kept_charts(paths.take(k)).push(paths[k])
        } else {
            spec_kept_charts(paths.take(k))
        }),
{
    assert(paths.take(k + 1).drop_last() =~= paths.take(k));
    assert(paths.take(k + 1).last() == paths[k]);
}

/// Selects the chart files among the discovered paths, keeping discovery
/// order, and takes at most `limit` of them when a limit is set.
pub fn select_chart_files(paths: &Vec<String>, limit: Option<usize>) -> (out: Vec<String>)
    ensures
        out@ == spec_selected_charts(paths@, limit),
{
    let mut out: Vec<String> = Vec::new();
    let mut i: usize = 0;
    while i < paths.len()
        invariant
            0 <= i <= paths@.len(),
            match limit {
                None => out@ == spec_kept_charts(paths@.take(i as int)),
                Some(l) => {
                    let kept = spec_kept_charts(paths@.take(i as int));
                    if kept.len() <= l {
                        out@ == kept
                    } else {
                        out@ == kept.take(l as int)
                    }
                },
            },
        decreases paths@.len() - i,
    {
        proof {
            lemma_kept_charts_step(paths@, i as int);
        }
        let keep = is_chart_path(paths[i].as_str());
        let under_limit = match limit {
            None => true,
            Some(l) => out.len() < l,
        };
        if keep && under_limit {
            out.push(paths[i].clone());
        }
        proof {
            let ghost kept_new = spec_kept_charts(paths@.take(i + 1));
            let ghost kept_old = spec_kept_charts(paths@.take(i as int));
            match limit {
                None => {},
                Some(l) => {
                    if keep && kept_old.len() >= l {
                        assert(kept_new =~= kept_old.push(paths@[i as int]));
                        if kept_old.len() == l {
                            assert(kept_new.take(l as int) =~= kept_old);
                        } else {
                            assert(kept_new.take(l as int) =~= kept_old.take(l as int));
                        }
                    }
                },
            }
        }
        i = i + 1;
    }
    proof {
        assert(paths@.take(paths@.len() as int) =~= paths@);
    }
    out
}

/// `r` is the floor of the square root of `n`.
pub open spec fn is_floor_sqrt(n: int, r: int) -> bool {
    r * r <= n < (r + 1) * (r + 1)
}

/// Floor of the square root, by counting up: the cluster-count heuristic
/// for an index of `n` vectors.
pub fn isqrt(n: u64) -> (r: u64)
    ensures
        is_floor_sqrt(n as int, r as int),
{
    let mut r: u64 = 0;
    loop
        invariant
            (r as int) * (r as int) <= n as int,
            r <= 0x1_0000_0000,
        decreases n as int - (r as int) * (r as int),
    {
        proof {
            assert((r as int) <= 0x1_0000_0000 ==> (r as int + 1) * (r as int + 1)
                <= 0x2_0000_0001_0000_0000) by (nonlinear_arith);
        }
        let next: u128 = (r as u128 + 1) * (r as u128 + 1);
        if next > n as u128 {
            return r;
        }
        proof {
            assert((r as int + 1) * (r as int + 1) <= n as int ==> r as int + 1
                <= 0x1_0000_0000) by (nonlinear_arith)
                requires
                    n as int <= 0xffff_ffff_ffff_ffff,
            ;
            assert((r as int) * (r as int) < (r as int + 1) * (r as int + 1)) by (nonlinear_arith);
        }
        r = r + 1;
    }
}

/// How the index is built over `n` vectors: the cluster count is the
/// square root of `n`, balancing query latency against build cost, with
/// a fixed iteration budget.
pub fn index_build_params(n: u64) -> (r: (u64, u64))
    ensures
        is_floor_sqrt(n as int, r.0 as int),
        r.1 == 20,
{
    (isqrt(n), 20)
}

/// How many clusters a probe examines: the square root of the cluster
/// count (taken as 1 when the index cannot report it), plus one to widen
/// the search.
pub fn probe_count(num_clusters: Option<u64>) -> (r: u64)
    ensures
        r >= 1,
        is_floor_sqrt(
            match num_clusters {
                Some(c) => c as int,
                None => 1,
            },
            r as int - 1,
        ),
{
    let c = match num_clusters {
        Some(c) => c,
        None => 1,
    };
    let root = isqrt(c);
    proof {
        assert((root as int) * (root as int) <= 0xffff_ffff_ffff_ffff ==> root as int
            <= 0x1_0000_0000) by (nonlinear_arith);
    }
    root + 1
}

/// Index of the dot that starts the extension of the final path
/// component, scanning back from `i`; -1 when there is none before a
/// separator or the component start.
pub open spec fn ext_dot_from(p: Seq<char>, i: int) -> int
    decreases i,
{
    if i <= 0 {
        -1
    } else if p[i - 1] == '/' || p[i - 1] == '\\' {
        -1
    } else if p[i - 1] == '.' {
        if i - 1 == 0 || p[i - 2] == '/' || p[i - 2] == '\\' {
            -1
        } else {
            i - 1
        }
    } else {
        ext_dot_from(p, i - 1)
    }
}

/// The sidecar path derived from the index path: the extension of its
/// final component replaced by "paths.json".
pub open spec fn spec_sidecar_path(p: Seq<char>) -> Seq<char> {
    let d = ext_dot_from(p, p.len() as int);
    (if d >= 0 {
        p.take(d)
    } else {
        p
    }) + ".paths.json"@
}

fn ext_dot_exec(s: &str, i: usize) -> (r: Option<usize>)
    requires
        i <= s@.len(),
    ensures
        match r {
            None => ext_dot_from(s@, i as int) == -1,
            Some(d) => ext_dot_from(s@, i as int) == d && d < s@.len(),
        },
    decreases i,
{
    if i == 0 {
        return None;
    }
    let c = s.get_char(i - 1);
    if c == '/' || c == '\\' {
        None
    } else if c == '.' {
        if i == 1 {
            None
        } else {
            let c2 = s.get_char(i - 2);
            if c2 == '/' || c2 == '\\' {
                None
            } else {
                Some(i - 1)
            }
        }
    } else {
        ext_dot_exec(s, i - 1)
    }
}

/// The metadata sidecar's path for a given index path.
pub fn sidecar_path(db_path: &str) -> (r: String)
    ensures
        r@ == spec_sidecar_path(db_path@),
{
    let n = db_path.unicode_len();
    let stem_end = match ext_dot_exec(db_path, n) {
        Some(d) => d,
        None => n,
    };
    let stem = db_path.substring_char(0, stem_end);
    let mut out = String::from_str(stem);
    out.append(".paths.json");
    proof {
        assert(db_path@.subrange(0, db_path@.len() as int) =~= db_path@);
        assert(out@ =~= spec_sidecar_path(db_path@));
    }
    out
}

/// Whether the shared counter's value is published to observers: only
/// every hundredth increment is, to keep lock traffic low.
pub fn should_publish(processed: u64) -> (r: bool)
    ensures
        r == (processed % 100 == 0),
{
    processed % 100 == 0
}

impl IndexingProgress {
    /// Fresh counters: nothing processed, nothing expected, no message.
    pub fn new() -> (r: Self)
        ensures
            r.progress == 0,
            r.total == 0,
            r.message@ == Seq::<char>::empty(),
    {
        IndexingProgress { progress: 0, total: 0, message: String::new() }
    }

    /// Seeds a run: the number of discovered files becomes the total,
    /// before any parsing begins.
    pub fn begin_parsing(&mut self, total: u64)
        ensures
            final(self).progress == old(self).progress,
            final(self).total == total,
            final(self).message@ == "Parsing beatmaps..."@,
    {
        self.total = total;
        self.message = String::from_str("Parsing beatmaps...");
    }

    /// Publishes a sampled value of the shared counter.
    pub fn sample(&mut self, processed: u64)
        ensures
            final(self).progress == processed,
            final(self).total == old(self).total,
            final(self).message == old(self).message,
    {
        self.progress = processed;
    }

    /// Marks the parsing phase complete and the index build begun.
    pub fn begin_building(&mut self)
        ensures
            final(self).progress == old(self).total,
            final(self).total == old(self).total,
            final(self).message@ == "Building search index..."@,
    {
        self.progress = self.total;
        self.message = String::from_str("Building search index...");
    }
}

impl Default for IndexingProgress {
    /// Same as [`IndexingProgress::new`].
    fn default() -> (r: Self)
        ensures
            r.progress == 0,
            r.total == 0,
            r.message@ == Seq::<char>::empty(),
    {
        IndexingProgress::new()
    }
}

} // verus!
