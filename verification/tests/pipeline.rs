use osu_explorer::indexer::{
    collect_outcomes, is_chart_path, isqrt, probe_count, process_chart_text, select_chart_files,
    should_publish, sidecar_path, ChartOutcome,
};
use osu_explorer::model::IndexingProgress;

fn chart_text(id: i32, set_id: i32, title: &str, object_lines: &[&str]) -> String {
    let mut s = String::from("osu file format v14\n\n[Metadata]\n");
    s.push_str(&format!("Title:{}\n", title));
    s.push_str("Artist:someone\nVersion:Insane\n");
    s.push_str(&format!("BeatmapID:{}\n", id));
    s.push_str(&format!("BeatmapSetID:{}\n", set_id));
    s.push_str("\n[HitObjects]\n");
    for line in object_lines {
        s.push_str(line);
        s.push('\n');
    }
    s
}

fn circle_line(x: i32, y: i32, t: i32) -> String {
    format!("{},{},{},1,0,0:0:0:0:", x, y, t)
}

#[test]
fn valid_text_is_indexed_with_its_metadata() {
    let lines: Vec<String> = (0..10).map(|i| circle_line(i * 16, 8, i * 150)).collect();
    let refs: Vec<&str> = lines.iter().map(|s| s.as_str()).collect();
    let text = chart_text(42, 7, "Alpha", &refs);
    match process_chart_text(&text, String::from("songs/alpha.osu")) {
        ChartOutcome::Indexed { vector, info } => {
            assert_eq!(vector.len(), 8);
            assert_eq!(info.path, "songs/alpha.osu");
            assert_eq!(info.beatmap_id, 42);
            assert_eq!(info.beatmapset_id, 7);
            assert_eq!(info.title, "Alpha");
            assert_eq!(info.artist, "someone");
            assert_eq!(info.difficulty_name, "Insane");
        }
        other => panic!("expected an indexed outcome, got {:?}", other),
    }
}

#[test]
fn slider_curve_points_reach_the_sharp_feature() {
    // One slider whose curve repeats a control point (a red anchor), plus
    // two circles: the sharp-slider ratio is 1 weighted by 1.2.
    let lines = [
        "0,0,0,2,0,B|10:10|10:10,1,50",
        "100,0,100,1,0,0:0:0:0:",
        "200,0,200,1,0,0:0:0:0:",
    ];
    let text = chart_text(5, 5, "Anchors", &lines);
    match process_chart_text(&text, String::from("anchors.osu")) {
        ChartOutcome::Indexed { vector, info } => {
            assert_eq!(info.beatmap_id, 5);
            assert_eq!(vector[6].num, 12);
            assert_eq!(vector[6].den, 10);
        }
        other => panic!("expected an indexed outcome, got {:?}", other),
    }

    // The same slider with distinct control points has no red anchor.
    let lines = [
        "0,0,0,2,0,B|10:10|20:20,1,50",
        "100,0,100,1,0,0:0:0:0:",
        "200,0,200,1,0,0:0:0:0:",
    ];
    let text = chart_text(6, 6, "Smooth", &lines);
    match process_chart_text(&text, String::from("smooth.osu")) {
        ChartOutcome::Indexed { vector, .. } => {
            assert_eq!(vector[6].num, 0);
        }
        other => panic!("expected an indexed outcome, got {:?}", other),
    }
}

#[test]
fn garbage_text_fails_to_parse() {
    let outcome = process_chart_text("not a chart at all", String::from("x.osu"));
    assert!(matches!(outcome, ChartOutcome::ParseFailed));
}

#[test]
fn chart_without_objects_is_empty() {
    let text = chart_text(1, 1, "Void", &[]);
    let outcome = process_chart_text(&text, String::from("void.osu"));
    assert!(matches!(outcome, ChartOutcome::EmptyChart));
}

#[test]
fn unordered_object_times_are_invalid_geometry() {
    let late = circle_line(0, 0, 500);
    let early = circle_line(100, 0, 100);
    let text = chart_text(1, 1, "Rewound", &[late.as_str(), early.as_str()]);
    let outcome = process_chart_text(&text, String::from("rewound.osu"));
    assert!(matches!(outcome, ChartOutcome::InvalidGeometry));
}

#[test]
fn processing_is_idempotent() {
    let lines: Vec<String> = (0..5).map(|i| circle_line(i * 20, 0, i * 120)).collect();
    let refs: Vec<&str> = lines.iter().map(|s| s.as_str()).collect();
    let text = chart_text(9, 9, "Twice", &refs);
    let a = process_chart_text(&text, String::from("p.osu"));
    let b = process_chart_text(&text, String::from("p.osu"));
    match (a, b) {
        (
            ChartOutcome::Indexed { vector: v1, info: i1 },
            ChartOutcome::Indexed { vector: v2, info: i2 },
        ) => {
            assert_eq!(v1, v2);
            assert_eq!(i1.path, i2.path);
            assert_eq!(i1.beatmap_id, i2.beatmap_id);
            assert_eq!(i1.title, i2.title);
        }
        _ => panic!("both runs must index the chart"),
    }
}

#[test]
fn collection_preserves_order_and_counts_skips() {
    let lines_a: Vec<String> = (0..10).map(|i| circle_line(i * 8, 0, i * 100)).collect();
    let refs_a: Vec<&str> = lines_a.iter().map(|s| s.as_str()).collect();
    let lines_b: Vec<String> = (0..15).map(|i| circle_line(i * 4, 4, i * 90)).collect();
    let refs_b: Vec<&str> = lines_b.iter().map(|s| s.as_str()).collect();

    let outcomes = vec![
        process_chart_text(&chart_text(1, 10, "First", &refs_a), String::from("a.osu")),
        process_chart_text("broken", String::from("b.osu")),
        process_chart_text(&chart_text(2, 20, "Second", &refs_b), String::from("c.osu")),
        process_chart_text(&chart_text(3, 30, "Hollow", &[]), String::from("d.osu")),
    ];
    let (vectors, infos, report) = collect_outcomes(outcomes);

    assert_eq!(vectors.len(), 2);
    assert_eq!(infos.len(), 2);
    assert_eq!(infos[0].beatmap_id, 1);
    assert_eq!(infos[0].path, "a.osu");
    assert_eq!(infos[1].beatmap_id, 2);
    assert_eq!(infos[1].path, "c.osu");
    assert_eq!(report.indexed, 2);
    assert_eq!(report.parse_failed, 1);
    assert_eq!(report.invalid_geometry, 0);
    assert_eq!(report.empty_charts, 1);
}

#[test]
fn chart_paths_are_recognised_by_extension() {
    assert!(is_chart_path("songs/map.osu"));
    assert!(is_chart_path("C:\\songs\\map.osu"));
    assert!(is_chart_path("a.osu"));
    assert!(!is_chart_path("songs/map.mp3"));
    assert!(!is_chart_path("songs/.osu"));
    assert!(!is_chart_path(".osu"));
    assert!(!is_chart_path("osu"));
    assert!(!is_chart_path("map.osu.bak"));
}

#[test]
fn selection_filters_and_limits_in_discovery_order() {
    let paths = vec![
        String::from("a.osu"),
        String::from("skin.ini"),
        String::from("b.osu"),
        String::from("c.osu"),
        String::from("song.mp3"),
        String::from("d.osu"),
    ];
    let all = select_chart_files(&paths, None);
    assert_eq!(all, vec!["a.osu", "b.osu", "c.osu", "d.osu"]);
    let limited = select_chart_files(&paths, Some(2));
    assert_eq!(limited, vec!["a.osu", "b.osu"]);
    let generous = select_chart_files(&paths, Some(10));
    assert_eq!(generous, vec!["a.osu", "b.osu", "c.osu", "d.osu"]);
}

#[test]
fn isqrt_exact_values() {
    assert_eq!(isqrt(0), 0);
    assert_eq!(isqrt(1), 1);
    assert_eq!(isqrt(3), 1);
    assert_eq!(isqrt(4), 2);
    assert_eq!(isqrt(15), 3);
    assert_eq!(isqrt(16), 4);
    assert_eq!(isqrt(17), 4);
    assert_eq!(isqrt(1_000_000), 1000);
    assert_eq!(isqrt(999_999), 999);
}

#[test]
fn probe_count_widens_the_search_by_one() {
    // An index that cannot report its cluster count probes sqrt(1) + 1.
    assert_eq!(probe_count(None), 2);
    assert_eq!(probe_count(Some(1)), 2);
    assert_eq!(probe_count(Some(9)), 4);
    assert_eq!(probe_count(Some(100)), 11);
}

#[test]
fn sidecar_path_replaces_the_extension() {
    assert_eq!(sidecar_path("osu_maps.db"), "osu_maps.paths.json");
    assert_eq!(sidecar_path("data/osu_maps.db"), "data/osu_maps.paths.json");
    assert_eq!(sidecar_path("C:\\data\\osu_maps.db"), "C:\\data\\osu_maps.paths.json");
    assert_eq!(sidecar_path("noext"), "noext.paths.json");
    assert_eq!(sidecar_path("dir.v2/noext"), "dir.v2/noext.paths.json");
    assert_eq!(sidecar_path(".hidden"), ".hidden.paths.json");
    assert_eq!(sidecar_path("a.b.c"), "a.b.paths.json");
}

#[test]
fn progress_counters_follow_the_run() {
    let mut p = IndexingProgress::new();
    assert_eq!(p.progress, 0);
    assert_eq!(p.total, 0);
    assert_eq!(p.message, "");

    p.begin_parsing(3);
    assert_eq!(p.total, 3);
    assert_eq!(p.message, "Parsing beatmaps...");

    p.sample(2);
    assert_eq!(p.progress, 2);
    assert_eq!(p.total, 3);

    p.begin_building();
    assert_eq!(p.progress, 3);
    assert_eq!(p.message, "Building search index...");
}

#[test]
fn progress_publishes_every_hundredth_increment() {
    assert!(should_publish(0));
    assert!(!should_publish(1));
    assert!(!should_publish(99));
    assert!(should_publish(100));
    assert!(should_publish(2300));
    assert!(!should_publish(2301));
}
