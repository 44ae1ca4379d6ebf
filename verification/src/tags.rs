//! The decoded GPMF tag structure that the extraction logic reads.
//!
//! A clip is a list of samples (payloads); each sample may carry a tag map,
//! which is a list of groups in key order, each a list of `(id, description)`
//! entries in key order. Floating-point payloads are kept as their IEEE-754
//! bit patterns (`u32` for `f32`, `u64` for `f64`): the extraction logic only
//! selects and moves them.
use vstd::prelude::*;

verus! {

/// A numeric tag value.
#[derive(Clone, Copy, Debug, PartialEq)]
pub enum Number {
    /// Bit pattern of an `f32`.
    F32(u32),
    /// Bit pattern of an `f64`.
    F64(u64),
    I8(i8),
    U8(u8),
    I16(i16),
    U16(u16),
    I32(i32),
    U32(u32),
    I64(i64),
    U64(u64),
}

/// One element of a heterogeneous tag array.
#[derive(Clone, Debug, PartialEq)]
pub enum Scalar {
    /// Bit pattern of an `f32`.
    F32(u32),
    /// Bit pattern of an `f64`.
    F64(u64),
    I8(i8),
    U8(u8),
    I16(i16),
    U16(u16),
    I32(i32),
    U32(u32),
    I64(i64),
    U64(u64),
    /// Any element that is not a number.
    Other,
}

/// One decoded GPS fix of a GPS9-style stream; float fields are bit patterns of `f64`s.
#[derive(Clone, Copy, Debug, PartialEq)]
pub struct GpsData {
    pub lat: u64,
    pub lon: u64,
    pub altitude: u64,
    /// Ground speed in km/h.
    pub speed: u64,
    /// Course over ground in degrees.
    pub track: u64,
    pub unix_timestamp: u64,
    pub is_acquired: bool,
}

/// The value of a tag.
#[derive(Clone, Debug, PartialEq)]
pub enum TagValue {
    F32(u32),
    F64(u64),
    I8(i8),
    U8(u8),
    I16(i16),
    U16(u16),
    I32(i32),
    U32(u32),
    I64(i64),
    U64(u64),
    Text(String),
    VecF32(Vec<u32>),
    VecF64(Vec<u64>),
    VecVecF32(Vec<Vec<u32>>),
    VecVecF64(Vec<Vec<u64>>),
    VecScalar(Vec<Scalar>),
    VecVecScalar(Vec<Vec<Scalar>>),
    VecText(Vec<String>),
    VecVecI32(Vec<Vec<i32>>),
    VecGpsData(Vec<GpsData>),
    /// Any value of a kind that the extraction logic does not read.
    Other,
}

/// A tag: its FourCC (or name) and its value.
#[derive(Clone, Debug, PartialEq)]
pub struct TagDescription {
    pub description: String,
    pub value: TagValue,
}

/// Tag group of a sample.
#[derive(Clone, Copy, Debug, PartialEq)]
pub enum GroupId {
    Gps,
    Other,
}

/// Key of a tag inside its group.
#[derive(Clone, Copy, Debug, PartialEq)]
pub enum TagId {
    /// The main data stream of the group (GPS5, GPS9, ACCL, ...).
    Data,
    Other,
}

/// A group of tags, in key order.
#[derive(Clone, Debug, PartialEq)]
pub struct TagGroup {
    pub group: GroupId,
    pub tags: Vec<(TagId, TagDescription)>,
}

/// One payload of the telemetry track.
#[derive(Clone, Debug, PartialEq)]
pub struct SampleInfo {
    /// Bit pattern of the payload duration in milliseconds (`f64`).
    pub duration_ms: u64,
    /// GPS fix state (GPSF) in effect for this payload.
    pub gps_fix: i32,
    /// GPS precision (GPSP, dilution of precision x 100) in effect for this payload.
    pub gps_precision: i32,
    pub tag_map: Option<Vec<TagGroup>>,
}

/// A decoded clip.
#[derive(Clone, Debug, PartialEq)]
pub struct Input {
    pub samples: Option<Vec<SampleInfo>>,
}

/// The descriptions of a group's tags, in order.
pub open spec fn group_descriptions(tags: Seq<(TagId, TagDescription)>) -> Seq<TagDescription> {
    tags.map_values(|e: (TagId, TagDescription)| e.1)
}

/// The descriptions of all tags of a list of groups, group after group.
pub open spec fn groups_descriptions(groups: Seq<TagGroup>) -> Seq<TagDescription>
    decreases groups.len(),
{
    if groups.len() == 0 {
        Seq::empty()
    } else {
        groups_descriptions(groups.drop_last()) + group_descriptions(groups.last().tags@)
    }
}

/// The descriptions of all tags of a sample (none when it has no tag map).
pub open spec fn sample_descriptions(info: SampleInfo) -> Seq<TagDescription> {
    match info.tag_map {
        Some(groups) => groups_descriptions(groups@),
        None => Seq::empty(),
    }
}

/// Every tag description of a clip, sample after sample, in the order the
/// tag maps list them.
pub open spec fn samples_descriptions(samples: Seq<SampleInfo>) -> Seq<TagDescription>
    decreases samples.len(),
{
    if samples.len() == 0 {
        Seq::empty()
    } else {
        samples_descriptions(samples.drop_last()) + sample_descriptions(samples.last())
    }
}

} // verus!
