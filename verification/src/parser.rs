//! Turning chart text into the in-memory model.
//!
//! The text grammar itself is handled by the external `osuparse` crate;
//! this module carries its output across the trust boundary as plain
//! values (`RawHitObject`, `RawChart`) and then, in verified code,
//! shapes and validates them into a well-formed [`Beatmap`].

use vstd::prelude::*;
use crate::model::{Beatmap, ChartObject, HitObjectType, MAX_COORD, MAX_OBJECTS};

verus! {

/// One gameplay object exactly as parsed: position, time, and for
/// sliders the curve control points.  Hitsound and combo data is not
/// carried; no feature reads it.
#[derive(Debug)]
pub enum RawHitObject {
    Circle { x: i32, y: i32, time: i32 },
    Slider { x: i32, y: i32, time: i32, curve_points: Vec<(i32, i32)> },
    Spinner { time: i32 },
    Hold { x: i32, y: i32, time: i32 },
}

/// A chart exactly as parsed: metadata plus the object list, before any
/// validation.
#[derive(Debug)]
pub struct RawChart {
    pub title: String,
    pub artist: String,
    pub difficulty_name: String,
    pub beatmap_id: i32,
    pub beatmapset_id: i32,
    pub objects: Vec<RawHitObject>,
}

/// What parsing a given text yields: the external parser is a pure
/// function of the text alone.
pub uninterp spec fn parsed_chart_of(s: Seq<char>) -> Option<RawChart>;

/// Declares osuparse's hit object enum so the conversion below can take
/// it; its contents stay opaque here.
#[verifier::external_type_specification]
#[verifier::external_body]
pub struct ExOsuHitObject(osuparse::HitObject);

/// Relies on the public fields of osuparse's hit object variants: moves
/// position, time and slider curve points over, one arm per variant.
#[verifier::external_body]
fn raw_object(ho: osuparse::HitObject) -> RawHitObject {
    match ho {
        osuparse::HitObject::HitCircle(o) => RawHitObject::Circle { x: o.x, y: o.y, time: o.time },
        osuparse::HitObject::Slider(o) => RawHitObject::Slider {
            x: o.x,
            y: o.y,
            time: o.time,
            curve_points: o.curve_points,
        },
        osuparse::HitObject::Spinner(o) => RawHitObject::Spinner { time: o.time },
        osuparse::HitObject::HoldNote(o) => RawHitObject::Hold { x: o.x, y: o.y, time: o.time },
    }
}

/// Relies on osuparse::parse_beatmap: a deterministic parse of the chart
/// text that fills the metadata section fields and the hit object list,
/// or reports an error for malformed text.
#[verifier::external_body]
pub(crate) fn parse_chart_text(s: &str) -> (r: Option<RawChart>)
    ensures
        r == parsed_chart_of(s@),
{
    match osuparse::parse_beatmap(s) {
        Ok(bm) => Some(RawChart {
            title: bm.metadata.title,
            artist: bm.metadata.artist,
            difficulty_name: bm.metadata.version,
            beatmap_id: bm.metadata.beatmap_id,
            beatmapset_id: bm.metadata.beatmap_set_id,
            objects: bm.hit_objects.into_iter().map(raw_object).collect(),
        }),
        Err(_) => None,
    }
}

/// The model object a raw object stands for.  Spinners sit at the play
/// field centre; only sliders keep curve points.
pub open spec fn spec_object_from_raw(r: RawHitObject) -> ChartObject {
    match r {
        RawHitObject::Circle { x, y, time } => ChartObject {
            x,
            y,
            start_time: time,
            obj_type: HitObjectType::Circle,
            curve_points: None,
        },
        RawHitObject::Slider { x, y, time, curve_points } => ChartObject {
            x,
            y,
            start_time: time,
            obj_type: HitObjectType::Slider,
            curve_points: Some(curve_points),
        },
        RawHitObject::Spinner { time } => ChartObject {
            x: 256,
            y: 192,
            start_time: time,
            obj_type: HitObjectType::Spinner,
            curve_points: None,
        },
        RawHitObject::Hold { x, y, time } => ChartObject {
            x,
            y,
            start_time: time,
            obj_type: HitObjectType::HoldNote,
            curve_points: None,
        },
    }
}

pub open spec fn spec_objects_from_raw(rs: Seq<RawHitObject>) -> Seq<ChartObject> {
    rs.map_values(|r: RawHitObject| spec_object_from_raw(r))
}

/// Whether a parsed chart fits the model: objects on the play field, in
/// temporal order, and few enough for exact arithmetic.
pub open spec fn raw_chart_ok(rc: RawChart) -> bool {
    let objs = spec_objects_from_raw(rc.objects@);
    &&& objs.len() <= MAX_OBJECTS
    &&& forall|i: int| 0 <= i < objs.len() ==> (#[trigger] objs[i]).wf()
    &&& forall|i: int| 1 <= i < objs.len() ==> #[trigger] objs[i - 1].start_time <= objs[i].start_time
}

fn object_from_raw(r: RawHitObject) -> (o: ChartObject)
    ensures
        o == spec_object_from_raw(r),
{
    match r {
        RawHitObject::Circle { x, y, time } => ChartObject {
            x,
            y,
            start_time: time,
            obj_type: HitObjectType::Circle,
            curve_points: None,
        },
        RawHitObject::Slider { x, y, time, curve_points } => ChartObject {
            x,
            y,
            start_time: time,
            obj_type: HitObjectType::Slider,
            curve_points: Some(curve_points),
        },
        RawHitObject::Spinner { time } => ChartObject {
            x: 256,
            y: 192,
            start_time: time,
            obj_type: HitObjectType::Spinner,
            curve_points: None,
        },
        RawHitObject::Hold { x, y, time } => ChartObject {
            x,
            y,
            start_time: time,
            obj_type: HitObjectType::HoldNote,
            curve_points: None,
        },
    }
}

/// Builds the validated chart a raw parse stands for, or `None` when its
/// geometry does not fit the model.
pub fn chart_from_raw(rc: RawChart) -> (r: Option<Beatmap>)
    ensures
        match r {
            Some(b) => {
                &&& raw_chart_ok(rc)
                &&& b.wf()
                &&& b.title == rc.title
                &&& b.artist == rc.artist
                &&& b.difficulty_name == rc.difficulty_name
                &&& b.beatmap_id == rc.beatmap_id
                &&& b.beatmapset_id == rc.beatmapset_id
                &&& b.hit_objects@ == spec_objects_from_raw(rc.objects@)
            },
            None => !raw_chart_ok(rc),
        },
{
    let ghost raws = rc.objects@;
    let RawChart { title, artist, difficulty_name, beatmap_id, beatmapset_id, mut objects } = rc;
    let mut converted: Vec<ChartObject> = Vec::new();
    while objects.len() > 0
        invariant
            raws == rc.objects@,
            converted@ == spec_objects_from_raw(raws.take(converted@.len() as int)),
            converted@.len() + objects@.len() == raws.len(),
            objects@ == raws.skip(converted@.len() as int),
        decreases objects@.len(),
    {
        let ghost k = converted@.len() as int;
        let raw = objects.remove(0);
        proof {
            assert(raw == raws[k]);
            assert(objects@ =~= raws.skip(k + 1));
        }
        let obj = object_from_raw(raw);
        converted.push(obj);
        proof {
            assert(converted@ =~= spec_objects_from_raw(raws.take(k + 1)));
        }
    }
    proof {
        assert(raws.take(raws.len() as int) =~= raws);
    }
    if (converted.len() as u64) > MAX_OBJECTS {
        return None;
    }
    let mut i: usize = 0;
    while i < converted.len()
        invariant
            raws == rc.objects@,
            converted@ == spec_objects_from_raw(raws),
            converted@.len() <= MAX_OBJECTS,
            0 <= i <= converted@.len(),
            forall|k: int| 0 <= k < i ==> (#[trigger] converted@[k]).wf(),
            forall|k: int|
                1 <= k < i ==> #[trigger] converted@[k - 1].start_time <= converted@[k].start_time,
        decreases converted@.len() - i,
    {
        let o = &converted[i];
        if o.x < -MAX_COORD || o.x > MAX_COORD || o.y < -MAX_COORD || o.y > MAX_COORD {
            proof {
                assert(!(spec_objects_from_raw(raws)[i as int]).wf());
            }
            return None;
        }
        if i >= 1 {
            if converted[i - 1].start_time > converted[i].start_time {
                proof {
                    assert(spec_objects_from_raw(raws)[i - 1].start_time
                        > spec_objects_from_raw(raws)[i as int].start_time);
                }
                return None;
            }
        }
        i = i + 1;
    }
    Some(
        Beatmap {
            title,
            artist,
            difficulty_name,
            beatmap_id,
            beatmapset_id,
            hit_objects: converted,
        },
    )
}

/// Parses chart text into a validated chart: `None` when the text does
/// not parse or the parsed chart's geometry does not fit the model.
pub fn parse_chart(s: &str) -> (r: Option<Beatmap>)
    ensures
        match parsed_chart_of(s@) {
            None => r is None,
            Some(rc) => match r {
                Some(b) => {
                    &&& raw_chart_ok(rc)
                    &&& b.wf()
                    &&& b.title == rc.title
                    &&& b.artist == rc.artist
                    &&& b.difficulty_name == rc.difficulty_name
                    &&& b.beatmap_id == rc.beatmap_id
                    &&& b.beatmapset_id == rc.beatmapset_id
                    &&& b.hit_objects@ == spec_objects_from_raw(rc.objects@)
                },
                None => !raw_chart_ok(rc),
            },
        },
{
    match parse_chart_text(s) {
        Some(rc) => chart_from_raw(rc),
        None => None,
    }
}

} // verus!
