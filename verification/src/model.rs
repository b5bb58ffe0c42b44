//! In-memory chart model, per-chart metadata, progress counters and
//! configuration: the plain data every other module works on.

use vstd::prelude::*;

verus! {

/// Largest coordinate magnitude a well-formed chart object may carry.
/// Chart coordinates live on a small play field; bounding them lets the
/// geometric feature computations stay within machine integers.
pub const MAX_COORD: i32 = 8192;

/// Largest object count a well-formed chart may carry; keeps every
/// derived numerator and denominator inside `u64`.
pub const MAX_OBJECTS: u64 = 0x100_0000_0000;

/// The kind of one gameplay object.
#[derive(Clone, Copy, Debug, PartialEq, Eq, Structural)]
pub enum HitObjectType {
    Circle,
    Slider,
    Spinner,
    HoldNote,
}

/// One gameplay object: a position on the play field, the time it must be
/// hit, its kind, and (for sliders) the control points of its curve.
#[derive(Debug)]
pub struct ChartObject {
    pub x: i32,
    pub y: i32,
    pub start_time: i32,
    pub obj_type: HitObjectType,
    pub curve_points: Option<Vec<(i32, i32)>>,
}

impl ChartObject {
    /// The object's position is on (or near) the play field.
    pub open spec fn wf(self) -> bool {
        &&& -MAX_COORD <= self.x <= MAX_COORD
        &&& -MAX_COORD <= self.y <= MAX_COORD
    }
}

/// A parsed chart: descriptive metadata plus the gameplay objects in
/// temporal order.  The object order is authoritative; nothing re-sorts it.
#[derive(Debug)]
pub struct Beatmap {
    pub title: String,
    pub artist: String,
    pub difficulty_name: String,
    pub beatmap_id: i32,
    pub beatmapset_id: i32,
    pub hit_objects: Vec<ChartObject>,
}

impl Beatmap {
    /// Every object is on the play field and the list is ordered by start
    /// time ascending; the count is small enough for exact ratio arithmetic.
    pub open spec fn wf(self) -> bool {
        &&& self.hit_objects@.len() <= MAX_OBJECTS
        &&& forall|i: int|
            0 <= i < self.hit_objects@.len() ==> (#[trigger] self.hit_objects@[i]).wf()
        &&& forall|i: int|
            1 <= i < self.hit_objects@.len() ==> #[trigger] self.hit_objects@[i
                - 1].start_time <= self.hit_objects@[i].start_time
    }
}

/// Descriptive metadata of one successfully processed chart, persisted in
/// the sidecar in the same order as the vectors entered the index.
#[derive(Debug)]
pub struct MapInfo {
    pub path: String,
    pub beatmap_id: i32,
    pub beatmapset_id: i32,
    pub title: String,
    pub artist: String,
    pub difficulty_name: String,
}

impl Clone for MapInfo {
    /// Field-for-field copy.
    fn clone(&self) -> (r: Self)
        ensures
            r == *self,
    {
        MapInfo {
            path: self.path.clone(),
            beatmap_id: self.beatmap_id,
            beatmapset_id: self.beatmapset_id,
            title: self.title.clone(),
            artist: self.artist.clone(),
            difficulty_name: self.difficulty_name.clone(),
        }
    }
}

/// Externally observable counters of a pipeline run.
#[derive(Debug)]
pub struct IndexingProgress {
    pub progress: u64,
    pub total: u64,
    pub message: String,
}

/// Persisted application configuration: where the chart files live.
#[derive(Debug)]
pub struct AppConfig {
    pub songs_path: Option<String>,
}

/// One feature value: an exact non-negative rational `num / den`.
#[derive(Clone, Copy, Debug, PartialEq, Eq, Structural)]
pub struct Ratio {
    pub num: u64,
    pub den: u64,
}

impl Ratio {
    pub open spec fn wf(self) -> bool {
        self.den > 0
    }

    /// The exact value zero, as every zero-valued feature is represented.
    pub open spec fn spec_zero() -> Ratio {
        Ratio { num: 0, den: 1 }
    }

    pub fn zero() -> (r: Ratio)
        ensures
            r == Ratio::spec_zero(),
    {
        Ratio { num: 0, den: 1 }
    }
}

} // verus!
