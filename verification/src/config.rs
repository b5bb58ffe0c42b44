//! Configuration paths and the chart-folder auto-detection candidates.
//!
//! Reading, writing and probing the file system stays with the caller;
//! this module derives the paths themselves.

use vstd::prelude::*;

verus! {

/// Path of the configuration file inside the application's data
/// directory.
pub fn config_path(data_dir: &str) -> (r: String)
    ensures
        r@ == data_dir@ + "/config.json"@,
{
    let mut out = String::from_str(data_dir);
    out.append("/config.json");
    out
}

/// The fixed drive locations where an installed game's chart folder is
/// looked for.
pub open spec fn spec_drive_candidates() -> Seq<Seq<char>> {
    seq![
        "C:\\Games\\osu!\\Songs"@,
        "C:\\osu!\\Songs"@,
        "D:\\Games\\osu!\\Songs"@,
        "D:\\osu!\\Songs"@,
        "E:\\Games\\osu!\\Songs"@,
        "E:\\osu!\\Songs"@,
        "F:\\Games\\osu!\\Songs"@,
        "F:\\osu!\\Songs"@,
    ]
}

/// The candidate chart folders, in probe order: the platform's game data
/// folder first when the caller found one, then the fixed drive
/// locations.
pub open spec fn spec_candidate_paths(os_songs_dir: Option<Seq<char>>) -> Seq<Seq<char>> {
    match os_songs_dir {
        Some(d) => seq![d] + spec_drive_candidates(),
        None => spec_drive_candidates(),
    }
}

/// Lists the folders to probe for charts, in order.  The caller passes
/// the platform's game data folder when it knows one, and probes each
/// returned path for existence.
pub fn detect_candidate_paths(os_songs_dir: Option<String>) -> (out: Vec<String>)
    ensures
        out@.map_values(|s: String| s@) == spec_candidate_paths(
            match os_songs_dir {
                Some(d) => Some(d@),
                None => None,
            },
        ),
{
    let ghost os_view: Option<Seq<char>> = match &os_songs_dir {
        Some(d) => Some(d@),
        None => None,
    };
    let mut out: Vec<String> = Vec::new();
    match os_songs_dir {
        Some(d) => out.push(d),
        None => {},
    }
    out.push(String::from_str("C:\\Games\\osu!\\Songs"));
    out.push(String::from_str("C:\\osu!\\Songs"));
    out.push(String::from_str("D:\\Games\\osu!\\Songs"));
    out.push(String::from_str("D:\\osu!\\Songs"));
    out.push(String::from_str("E:\\Games\\osu!\\Songs"));
    out.push(String::from_str("E:\\osu!\\Songs"));
    out.push(String::from_str("F:\\Games\\osu!\\Songs"));
    out.push(String::from_str("F:\\osu!\\Songs"));
    proof {
        assert(out@.map_values(|s: String| s@) =~= spec_candidate_paths(os_view));
    }
    out
}

} // verus!
