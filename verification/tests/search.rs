use osu_explorer::config::{config_path, detect_candidate_paths};
use osu_explorer::indexer::{collect_outcomes, process_chart_text, ChartOutcome};
use osu_explorer::model::MapInfo;
use osu_explorer::searcher::{
    build_id_index, extract_query_vector, perform_search, resolve_query, SearchError,
};
use osu_explorer::web::IndexRequest;

fn info(path: &str, beatmap_id: i32) -> MapInfo {
    MapInfo {
        path: String::from(path),
        beatmap_id,
        beatmapset_id: beatmap_id * 10,
        title: format!("title {}", beatmap_id),
        artist: String::from("artist"),
        difficulty_name: String::from("diff"),
    }
}

#[test]
fn id_index_maps_every_chart_to_its_position() {
    let infos = vec![info("a.osu", 5), info("b.osu", 9), info("c.osu", 2)];
    let m = build_id_index(&infos);
    assert_eq!(m.get(&5), Some(&0));
    assert_eq!(m.get(&9), Some(&1));
    assert_eq!(m.get(&2), Some(&2));
    assert_eq!(m.get(&77), None);
}

#[test]
fn id_index_lets_later_duplicates_win() {
    let infos = vec![info("a.osu", 5), info("b.osu", 5)];
    let m = build_id_index(&infos);
    assert_eq!(m.get(&5), Some(&1));
}

#[test]
fn query_resolution_reports_each_failure() {
    let infos = vec![info("a.osu", 5)];
    let m = build_id_index(&infos);
    assert_eq!(resolve_query(false, &m, 5), Err(SearchError::NotIndexed));
    assert_eq!(resolve_query(true, &m, 6), Err(SearchError::MapNotFound(6)));
    assert_eq!(resolve_query(true, &m, 5), Ok(0));
}

#[test]
fn query_vector_extraction_reports_each_failure() {
    assert_eq!(
        extract_query_vector("scrambled bytes"),
        Err(SearchError::ChartUnreadable)
    );
    let empty = "osu file format v14\n\n[Metadata]\nTitle:Void\n\n[HitObjects]\n";
    assert_eq!(
        extract_query_vector(empty),
        Err(SearchError::FeatureExtractionFailed)
    );
    let mut full = String::from("osu file format v14\n\n[HitObjects]\n");
    for i in 0..4 {
        full.push_str(&format!("{},{},{},1,0,0:0:0:0:\n", i * 30, 0, i * 100));
    }
    let v = extract_query_vector(&full).unwrap();
    assert_eq!(v.len(), 8);
}

#[test]
fn search_never_returns_the_query_itself() {
    let infos = vec![info("a.osu", 1), info("b.osu", 2), info("c.osu", 3)];
    // The index answers with the query chart first, as the closest match.
    let results: Vec<(usize, f32)> = vec![(1, 0.999), (0, 0.7), (2, 0.4)];
    for k in 0..3 {
        let out = perform_search(&results, &infos, 1, k);
        assert!(out.iter().all(|(_, m)| m.beatmap_id != 2));
        assert_eq!(out.len(), k.min(2));
    }
}

#[test]
fn search_keeps_index_order_and_truncates() {
    let infos = vec![info("a.osu", 1), info("b.osu", 2), info("c.osu", 3), info("d.osu", 4)];
    let results: Vec<(usize, f32)> = vec![(3, 0.9), (0, 0.8), (2, 0.5), (1, 0.1)];
    let out = perform_search(&results, &infos, 2, 2);
    assert_eq!(out.len(), 2);
    assert_eq!(out[0].0, 0.9);
    assert_eq!(out[0].1.beatmap_id, 4);
    assert_eq!(out[1].0, 0.8);
    assert_eq!(out[1].1.beatmap_id, 1);
}

#[test]
fn search_absorbs_a_missing_self_match() {
    let infos = vec![info("a.osu", 1), info("b.osu", 2)];
    // The query id never came back: nothing is filtered, nothing crashes.
    let results: Vec<(usize, f32)> = vec![(1, 0.8)];
    let out = perform_search(&results, &infos, 0, 5);
    assert_eq!(out.len(), 1);
    assert_eq!(out[0].1.beatmap_id, 2);
}

fn chart_with_objects(id: i32, n: i32) -> String {
    let mut s = format!(
        "osu file format v14\n\n[Metadata]\nTitle:Map {}\nArtist:aa\nVersion:vv\nBeatmapID:{}\nBeatmapSetID:{}\n\n[HitObjects]\n",
        id, id, id
    );
    for i in 0..n {
        s.push_str(&format!("{},{},{},1,0,0:0:0:0:\n", (i * 17) % 512, (i * 13) % 384, i * 140));
    }
    s
}

#[test]
fn three_files_two_survive_and_answer_queries() {
    // Three discovered files: two parse (10 and 15 objects), one does not.
    let texts = vec![
        (chart_with_objects(101, 10), "one.osu"),
        (String::from("not a beatmap"), "two.osu"),
        (chart_with_objects(202, 15), "three.osu"),
    ];
    let total = texts.len() as u64;
    assert_eq!(total, 3);

    let outcomes: Vec<ChartOutcome> = texts
        .iter()
        .map(|(text, path)| process_chart_text(text, String::from(*path)))
        .collect();
    let (vectors, infos, report) = collect_outcomes(outcomes);

    assert_eq!(report.indexed, 2);
    assert_eq!(report.parse_failed, 1);
    assert_eq!(vectors.len(), 2);
    assert_eq!(infos.len(), 2);
    assert_eq!(infos[0].beatmap_id, 101);
    assert_eq!(infos[1].beatmap_id, 202);

    // Index ids follow insertion order: 0 and 1.  A query for either
    // surviving chart with k = 5 can return at most the other one.
    let m = build_id_index(&infos);
    for (qid, other) in [(101, 202), (202, 101)] {
        let qidx = resolve_query(true, &m, qid).unwrap();
        // The index would answer with both charts, self-match included.
        let results: Vec<(usize, f32)> = vec![(qidx, 1.0), (1 - qidx, 0.5)];
        let out = perform_search(&results, &infos, qidx, 5);
        assert_eq!(out.len(), 1);
        assert_eq!(out[0].1.beatmap_id, other);
    }
}

#[test]
fn config_paths_are_derived_deterministically() {
    assert_eq!(config_path("/data/dir"), "/data/dir/config.json");
    assert_eq!(osu_explorer::web::config_path(), "config.json");
}

#[test]
fn candidate_folders_probe_the_platform_dir_first() {
    let with_os = detect_candidate_paths(Some(String::from("/home/u/osu/Songs")));
    assert_eq!(with_os.len(), 9);
    assert_eq!(with_os[0], "/home/u/osu/Songs");
    assert_eq!(with_os[1], "C:\\Games\\osu!\\Songs");
    assert_eq!(with_os[8], "F:\\osu!\\Songs");

    let without = detect_candidate_paths(None);
    assert_eq!(without.len(), 8);
    assert_eq!(without[0], "C:\\Games\\osu!\\Songs");
    assert_eq!(without[7], "F:\\osu!\\Songs");
}

#[test]
fn index_request_carries_path_and_limit() {
    let req = IndexRequest { songs_path: String::from("/songs"), limit: Some(4) };
    assert_eq!(req.songs_path, "/songs");
    assert_eq!(req.limit, Some(4));
}
