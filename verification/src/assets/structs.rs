//! The fixed-layout struct values that properties can hold. Floating point
//! fields are kept as the bits of their IEEE 754 single precision value.
use vstd::prelude::*;
use crate::reader::{ReaderCursor, le_u32, avail, signed};
use crate::assets::{Newable, ParserResult, error_msg, le_i32, tarray_ok, tarray_end, tarray_is, read_tarray, FGuid,
    read_string, spec_string};

verus! {

/// Four single precision colour channels.
#[derive(Debug, Clone, Copy)]
pub struct FLinearColor {
    pub r: u32,
    pub g: u32,
    pub b: u32,
    pub a: u32,
}

impl Newable for FLinearColor {
    open spec fn spec_ok(data: Seq<u8>, pos: int) -> bool {
        avail(data, pos, 16)
    }

    open spec fn spec_end(data: Seq<u8>, pos: int) -> int {
        pos + 16
    }

    open spec fn spec_is(data: Seq<u8>, pos: int, v: Self) -> bool {
        v.r == le_u32(data, pos) && v.g == le_u32(data, pos + 4) && v.b == le_u32(data, pos + 8) && v.a
            == le_u32(data, pos + 12)
    }

    fn new(reader: &mut ReaderCursor) -> (res: ParserResult<Self>) {
        let r = reader.read_u32();
        let g = reader.read_u32();
        let b = reader.read_u32();
        let a = reader.read_u32();
        match (r, g, b, a) {
            (Some(r), Some(g), Some(b), Some(a)) => Ok(FLinearColor { r, g, b, a }),
            _ => Err(error_msg("File Error: failed to fill whole buffer")),
        }
    }
}

/// A point with two unsigned coordinates.
#[derive(Debug, Clone, Copy)]
pub struct FIntPoint {
    pub x: u32,
    pub y: u32,
}

impl Newable for FIntPoint {
    open spec fn spec_ok(data: Seq<u8>, pos: int) -> bool {
        avail(data, pos, 8)
    }

    open spec fn spec_end(data: Seq<u8>, pos: int) -> int {
        pos + 8
    }

    open spec fn spec_is(data: Seq<u8>, pos: int, v: Self) -> bool {
        v.x == le_u32(data, pos) && v.y == le_u32(data, pos + 4)
    }

    fn new(reader: &mut ReaderCursor) -> (res: ParserResult<Self>) {
        let x = reader.read_u32();
        let y = reader.read_u32();
        match (x, y) {
            (Some(x), Some(y)) => Ok(FIntPoint { x, y }),
            _ => Err(error_msg("File Error: failed to fill whole buffer")),
        }
    }
}

/// A quaternion of four single precision values.
#[derive(Debug, Clone, Copy)]
pub struct FQuat {
    pub x: u32,
    pub y: u32,
    pub z: u32,
    pub w: u32,
}

impl Newable for FQuat {
    open spec fn spec_ok(data: Seq<u8>, pos: int) -> bool {
        avail(data, pos, 16)
    }

    open spec fn spec_end(data: Seq<u8>, pos: int) -> int {
        pos + 16
    }

    open spec fn spec_is(data: Seq<u8>, pos: int, v: Self) -> bool {
        v.x == le_u32(data, pos) && v.y == le_u32(data, pos + 4) && v.z == le_u32(data, pos + 8) && v.w
            == le_u32(data, pos + 12)
    }

    fn new(reader: &mut ReaderCursor) -> (res: ParserResult<Self>) {
        let x = reader.read_u32();
        let y = reader.read_u32();
        let z = reader.read_u32();
        let w = reader.read_u32();
        match (x, y, z, w) {
            (Some(x), Some(y), Some(z), Some(w)) => Ok(FQuat { x, y, z, w }),
            _ => Err(error_msg("File Error: failed to fill whole buffer")),
        }
    }
}

/// A vector of three single precision values.
#[derive(Debug, Clone, Copy)]
pub struct FVector {
    pub x: u32,
    pub y: u32,
    pub z: u32,
}

impl Newable for FVector {
    open spec fn spec_ok(data: Seq<u8>, pos: int) -> bool {
        avail(data, pos, 12)
    }

    open spec fn spec_end(data: Seq<u8>, pos: int) -> int {
        pos + 12
    }

    open spec fn spec_is(data: Seq<u8>, pos: int, v: Self) -> bool {
        v.x == le_u32(data, pos) && v.y == le_u32(data, pos + 4) && v.z == le_u32(data, pos + 8)
    }

    fn new(reader: &mut ReaderCursor) -> (res: ParserResult<Self>) {
        let x = reader.read_u32();
        let y = reader.read_u32();
        let z = reader.read_u32();
        match (x, y, z) {
            (Some(x), Some(y), Some(z)) => Ok(FVector { x, y, z }),
            _ => Err(error_msg("File Error: failed to fill whole buffer")),
        }
    }
}

/// A vector of two single precision values.
#[derive(Debug, Clone, Copy)]
pub struct FVector2D {
    pub x: u32,
    pub y: u32,
}

impl Newable for FVector2D {
    open spec fn spec_ok(data: Seq<u8>, pos: int) -> bool {
        avail(data, pos, 8)
    }

    open spec fn spec_end(data: Seq<u8>, pos: int) -> int {
        pos + 8
    }

    open spec fn spec_is(data: Seq<u8>, pos: int, v: Self) -> bool {
        v.x == le_u32(data, pos) && v.y == le_u32(data, pos + 4)
    }

    fn new(reader: &mut ReaderCursor) -> (res: ParserResult<Self>) {
        let x = reader.read_u32();
        let y = reader.read_u32();
        match (x, y) {
            (Some(x), Some(y)) => Ok(FVector2D { x, y }),
            _ => Err(error_msg("File Error: failed to fill whole buffer")),
        }
    }
}

/// A rotation as pitch, yaw and roll, single precision.
#[derive(Debug, Clone, Copy)]
pub struct FRotator {
    pub pitch: u32,
    pub yaw: u32,
    pub roll: u32,
}

impl Newable for FRotator {
    open spec fn spec_ok(data: Seq<u8>, pos: int) -> bool {
        avail(data, pos, 12)
    }

    open spec fn spec_end(data: Seq<u8>, pos: int) -> int {
        pos + 12
    }

    open spec fn spec_is(data: Seq<u8>, pos: int, v: Self) -> bool {
        v.pitch == le_u32(data, pos) && v.yaw == le_u32(data, pos + 4) && v.roll == le_u32(data, pos + 8)
    }

    fn new(reader: &mut ReaderCursor) -> (res: ParserResult<Self>) {
        let x = reader.read_u32();
        let y = reader.read_u32();
        let z = reader.read_u32();
        match (x, y, z) {
            (Some(pitch), Some(yaw), Some(roll)) => Ok(FRotator { pitch, yaw, roll }),
            _ => Err(error_msg("File Error: failed to fill whole buffer")),
        }
    }
}

/// The fixed-layout records are stored field by field, in declaration order,
/// as 32-bit words: a colour as r, g, b, a; a point and a 2D vector as x, y;
/// a vector as x, y, z; a quaternion as x, y, z, w; a simple curve key as
/// time, value.
pub proof fn lemma_record_field_order(data: Seq<u8>, pos: int)
    ensures
        forall|v: FLinearColor| #[trigger] FLinearColor::spec_is(data, pos, v) ==> v.r == le_u32(data, pos) && v.g
            == le_u32(data, pos + 4) && v.b == le_u32(data, pos + 8) && v.a == le_u32(data, pos + 12),
        forall|v: FIntPoint| #[trigger] FIntPoint::spec_is(data, pos, v) ==> v.x == le_u32(data, pos) && v.y
            == le_u32(data, pos + 4),
        forall|v: FVector2D| #[trigger] FVector2D::spec_is(data, pos, v) ==> v.x == le_u32(data, pos) && v.y
            == le_u32(data, pos + 4),
        forall|v: FVector| #[trigger] FVector::spec_is(data, pos, v) ==> v.x == le_u32(data, pos) && v.y == le_u32(
            data,
            pos + 4,
        ) && v.z == le_u32(data, pos + 8),
        forall|v: FQuat| #[trigger] FQuat::spec_is(data, pos, v) ==> v.x == le_u32(data, pos) && v.y == le_u32(
            data,
            pos + 4,
        ) && v.z == le_u32(data, pos + 8) && v.w == le_u32(data, pos + 12),
        forall|v: FSimpleCurveKey| #[trigger] FSimpleCurveKey::spec_is(data, pos, v) ==> v.time == le_u32(data, pos)
            && v.value == le_u32(data, pos + 4),
{
}

/// A rotator is stored as three 32-bit words in the order pitch, yaw, roll:
/// the pitch is the first word, the yaw the second and the roll the third.
pub proof fn lemma_rotator_field_order(data: Seq<u8>, pos: int, v: FRotator)
    requires
        FRotator::spec_is(data, pos, v),
    ensures
        v.pitch == le_u32(data, pos),
        v.yaw == le_u32(data, pos + 4),
        v.roll == le_u32(data, pos + 8),
{
}

/// A box between two corners, and whether it is valid.
#[derive(Debug, Clone, Copy)]
pub struct FBox {
    pub min: FVector,
    pub max: FVector,
    pub valid: bool,
}

impl Newable for FBox {
    open spec fn spec_ok(data: Seq<u8>, pos: int) -> bool {
        avail(data, pos, 28)
    }

    open spec fn spec_end(data: Seq<u8>, pos: int) -> int {
        pos + 28
    }

    open spec fn spec_is(data: Seq<u8>, pos: int, v: Self) -> bool {
        FVector::spec_is(data, pos, v.min) && FVector::spec_is(data, pos + 12, v.max) && v.valid == (le_u32(
            data,
            pos + 24,
        ) != 0)
    }

    fn new(reader: &mut ReaderCursor) -> (res: ParserResult<Self>) {
        let min = FVector::new(reader)?;
        let max = FVector::new(reader)?;
        match reader.read_u32() {
            Some(v) => Ok(FBox { min, max, valid: v != 0 }),
            None => Err(error_msg("File Error: failed to fill whole buffer")),
        }
    }
}

/// A rectangle between two corners, and whether it is valid.
#[derive(Debug, Clone, Copy)]
pub struct FBox2D {
    pub min: FVector2D,
    pub max: FVector2D,
    pub valid: bool,
}

impl Newable for FBox2D {
    open spec fn spec_ok(data: Seq<u8>, pos: int) -> bool {
        avail(data, pos, 20)
    }

    open spec fn spec_end(data: Seq<u8>, pos: int) -> int {
        pos + 20
    }

    open spec fn spec_is(data: Seq<u8>, pos: int, v: Self) -> bool {
        FVector2D::spec_is(data, pos, v.min) && FVector2D::spec_is(data, pos + 8, v.max) && v.valid == (
        le_u32(data, pos + 16) != 0)
    }

    fn new(reader: &mut ReaderCursor) -> (res: ParserResult<Self>) {
        let min = FVector2D::new(reader)?;
        let max = FVector2D::new(reader)?;
        match reader.read_u32() {
            Some(v) => Ok(FBox2D { min, max, valid: v != 0 }),
            None => Err(error_msg("File Error: failed to fill whole buffer")),
        }
    }
}

/// A cooked flag and a single precision value.
#[derive(Debug, Clone, Copy)]
pub struct FPerPlatformFloat {
    pub cooked: bool,
    pub value: u32,
}

impl Newable for FPerPlatformFloat {
    open spec fn spec_ok(data: Seq<u8>, pos: int) -> bool {
        avail(data, pos, 5)
    }

    open spec fn spec_end(data: Seq<u8>, pos: int) -> int {
        pos + 5
    }

    open spec fn spec_is(data: Seq<u8>, pos: int, v: Self) -> bool {
        v.cooked == (data[pos] != 0) && v.value == le_u32(data, pos + 1)
    }

    fn new(reader: &mut ReaderCursor) -> (res: ParserResult<Self>) {
        let c = reader.read_u8();
        let v = reader.read_u32();
        match (c, v) {
            (Some(c), Some(v)) => Ok(FPerPlatformFloat { cooked: c != 0, value: v }),
            _ => Err(error_msg("File Error: failed to fill whole buffer")),
        }
    }
}

/// A cooked flag and an unsigned value.
#[derive(Debug, Clone, Copy)]
pub struct FPerPlatformInt {
    pub cooked: bool,
    pub value: u32,
}

impl Newable for FPerPlatformInt {
    open spec fn spec_ok(data: Seq<u8>, pos: int) -> bool {
        avail(data, pos, 5)
    }

    open spec fn spec_end(data: Seq<u8>, pos: int) -> int {
        pos + 5
    }

    open spec fn spec_is(data: Seq<u8>, pos: int, v: Self) -> bool {
        v.cooked == (data[pos] != 0) && v.value == le_u32(data, pos + 1)
    }

    fn new(reader: &mut ReaderCursor) -> (res: ParserResult<Self>) {
        let c = reader.read_u8();
        let v = reader.read_u32();
        match (c, v) {
            (Some(c), Some(v)) => Ok(FPerPlatformInt { cooked: c != 0, value: v }),
            _ => Err(error_msg("File Error: failed to fill whole buffer")),
        }
    }
}

/// A key of a movie scene evaluation: sequence, track and section.
#[derive(Debug, Clone, Copy)]
pub struct FMovieSceneEvaluationKey {
    pub sequence_id: u32,
    pub track_identifier: i32,
    pub section_index: u32,
}

impl Newable for FMovieSceneEvaluationKey {
    open spec fn spec_ok(data: Seq<u8>, pos: int) -> bool {
        avail(data, pos, 12)
    }

    open spec fn spec_end(data: Seq<u8>, pos: int) -> int {
        pos + 12
    }

    open spec fn spec_is(data: Seq<u8>, pos: int, v: Self) -> bool {
        v.sequence_id == le_u32(data, pos) && v.track_identifier == le_i32(data, pos + 4) && v.section_index
            == le_u32(data, pos + 8)
    }

    fn new(reader: &mut ReaderCursor) -> (res: ParserResult<Self>) {
        let a = reader.read_u32();
        let b = reader.read_i32();
        let c = reader.read_u32();
        match (a, b, c) {
            (Some(a), Some(b), Some(c)) => Ok(
                FMovieSceneEvaluationKey { sequence_id: a, track_identifier: b, section_index: c },
            ),
            _ => Err(error_msg("File Error: failed to fill whole buffer")),
        }
    }
}

/// A key of a rich curve: three modes, then six single precision values.
#[derive(Debug, Clone, Copy)]
pub struct FRichCurveKey {
    pub interp_mode: u8,
    pub tangent_mode: u8,
    pub tangent_weight_mode: u8,
    pub time: u32,
    pub value: u32,
    pub arrive_tangent: u32,
    pub arrive_tangent_weight: u32,
    pub leave_tangent: u32,
    pub leave_tangent_weight: u32,
}

impl Newable for FRichCurveKey {
    open spec fn spec_ok(data: Seq<u8>, pos: int) -> bool {
        avail(data, pos, 27)
    }

    open spec fn spec_end(data: Seq<u8>, pos: int) -> int {
        pos + 27
    }

    open spec fn spec_is(data: Seq<u8>, pos: int, v: Self) -> bool {
        &&& v.interp_mode == data[pos]
        &&& v.tangent_mode == data[pos + 1]
        &&& v.tangent_weight_mode == data[pos + 2]
        &&& v.time == le_u32(data, pos + 3)
        &&& v.value == le_u32(data, pos + 7)
        &&& v.arrive_tangent == le_u32(data, pos + 11)
        &&& v.arrive_tangent_weight == le_u32(data, pos + 15)
        &&& v.leave_tangent == le_u32(data, pos + 19)
        &&& v.leave_tangent_weight == le_u32(data, pos + 23)
    }

    fn new(reader: &mut ReaderCursor) -> (res: ParserResult<Self>) {
        let m0 = reader.read_u8();
        let m1 = reader.read_u8();
        let m2 = reader.read_u8();
        let (m0, m1, m2) = match (m0, m1, m2) {
            (Some(a), Some(b), Some(c)) => (a, b, c),
            _ => return Err(error_msg("File Error: failed to fill whole buffer")),
        };
        let t = reader.read_u32();
        let v = reader.read_u32();
        let at = reader.read_u32();
        let atw = reader.read_u32();
        let lt = reader.read_u32();
        let ltw = reader.read_u32();
        match (t, v, at, atw, lt, ltw) {
            (Some(t), Some(v), Some(at), Some(atw), Some(lt), Some(ltw)) => Ok(
                FRichCurveKey {
                    interp_mode: m0,
                    tangent_mode: m1,
                    tangent_weight_mode: m2,
                    time: t,
                    value: v,
                    arrive_tangent: at,
                    arrive_tangent_weight: atw,
                    leave_tangent: lt,
                    leave_tangent_weight: ltw,
                },
            ),
            _ => Err(error_msg("File Error: failed to fill whole buffer")),
        }
    }
}

/// A key of a simple curve: time and value, single precision.
#[derive(Debug, Clone, Copy)]
pub struct FSimpleCurveKey {
    pub time: u32,
    pub value: u32,
}

impl Newable for FSimpleCurveKey {
    open spec fn spec_ok(data: Seq<u8>, pos: int) -> bool {
        avail(data, pos, 8)
    }

    open spec fn spec_end(data: Seq<u8>, pos: int) -> int {
        pos + 8
    }

    open spec fn spec_is(data: Seq<u8>, pos: int, v: Self) -> bool {
        v.time == le_u32(data, pos) && v.value == le_u32(data, pos + 4)
    }

    fn new(reader: &mut ReaderCursor) -> (res: ParserResult<Self>) {
        let t = reader.read_u32();
        let v = reader.read_u32();
        match (t, v) {
            (Some(t), Some(v)) => Ok(FSimpleCurveKey { time: t, value: v }),
            _ => Err(error_msg("File Error: failed to fill whole buffer")),
        }
    }
}

/// How a range bound holds its value.
#[derive(Debug, PartialEq, Eq, Structural, Clone, Copy)]
pub enum TRangeBoundType {
    RangeExclusive,
    RangeInclusive,
    RangeOpen,
}

/// The bound type with code `c` (0 to 2).
pub open spec fn bound_type_of(c: u8) -> TRangeBoundType {
    if c == 0 {
        TRangeBoundType::RangeExclusive
    } else if c == 1 {
        TRangeBoundType::RangeInclusive
    } else {
        TRangeBoundType::RangeOpen
    }
}

/// The code of a bound type is its place in the declaration of `TRangeBoundType`.
pub proof fn lemma_bound_type_code(c: u8)
    requires
        c <= 2,
    ensures
        bound_type_of(c) as u8 == c,
{
}

/// A bound of a range of frame numbers.
#[derive(Debug, Clone, Copy)]
pub struct TRangeBound {
    pub bound_type: TRangeBoundType,
    pub value: i32,
}

impl Newable for TRangeBound {
    /// A known bound type byte, then the value.
    open spec fn spec_ok(data: Seq<u8>, pos: int) -> bool {
        avail(data, pos, 5) && data[pos] <= 2
    }

    open spec fn spec_end(data: Seq<u8>, pos: int) -> int {
        pos + 5
    }

    open spec fn spec_is(data: Seq<u8>, pos: int, v: Self) -> bool {
        v.bound_type == bound_type_of(data[pos]) && v.value == le_i32(data, pos + 1)
    }

    fn new(reader: &mut ReaderCursor) -> (res: ParserResult<Self>) {
        let c = match reader.read_u8() {
            Some(c) => c,
            None => return Err(error_msg("File Error: failed to fill whole buffer")),
        };
        let bound_type = if c == 0 {
            TRangeBoundType::RangeExclusive
        } else if c == 1 {
            TRangeBoundType::RangeInclusive
        } else if c == 2 {
            TRangeBoundType::RangeOpen
        } else {
            return Err(error_msg("Range bound type not supported"));
        };
        match reader.read_i32() {
            Some(value) => Ok(TRangeBound { bound_type, value }),
            None => Err(error_msg("File Error: failed to fill whole buffer")),
        }
    }
}

/// A range of frame numbers: two bounds.
#[derive(Debug, Clone, Copy)]
pub struct TRange {
    pub lower_bound: TRangeBound,
    pub upper_bound: TRangeBound,
}

impl Newable for TRange {
    open spec fn spec_ok(data: Seq<u8>, pos: int) -> bool {
        TRangeBound::spec_ok(data, pos) && TRangeBound::spec_ok(data, pos + 5)
    }

    open spec fn spec_end(data: Seq<u8>, pos: int) -> int {
        pos + 10
    }

    open spec fn spec_is(data: Seq<u8>, pos: int, v: Self) -> bool {
        TRangeBound::spec_is(data, pos, v.lower_bound) && TRangeBound::spec_is(data, pos + 5, v.upper_bound)
    }

    fn new(reader: &mut ReaderCursor) -> (res: ParserResult<Self>) {
        let lower_bound = TRangeBound::new(reader)?;
        let upper_bound = TRangeBound::new(reader)?;
        Ok(TRange { lower_bound, upper_bound })
    }
}

/// A handle to an entry of an evaluation tree.
#[derive(Debug, Clone, Copy)]
pub struct FEvaluationTreeEntryHandle {
    pub entry_index: i32,
}

/// A handle to a node of an evaluation tree.
#[derive(Debug, Clone, Copy)]
pub struct FMovieSceneEvaluationTreeNodeHandle {
    pub children_handle: FEvaluationTreeEntryHandle,
    pub index: i32,
}

/// A node of an evaluation tree: its range, its parent, and its children's and
/// data's entries.
#[derive(Debug, Clone, Copy)]
pub struct FMovieSceneEvaluationTreeNode {
    pub range: TRange,
    pub parent: FMovieSceneEvaluationTreeNodeHandle,
    pub children_id: FEvaluationTreeEntryHandle,
    pub data_id: FEvaluationTreeEntryHandle,
}

impl Newable for FMovieSceneEvaluationTreeNode {
    /// A range, then four signed words.
    open spec fn spec_ok(data: Seq<u8>, pos: int) -> bool {
        TRange::spec_ok(data, pos) && avail(data, pos + 10, 16)
    }

    open spec fn spec_end(data: Seq<u8>, pos: int) -> int {
        pos + 26
    }

    open spec fn spec_is(data: Seq<u8>, pos: int, v: Self) -> bool {
        &&& TRange::spec_is(data, pos, v.range)
        &&& v.parent.children_handle.entry_index == le_i32(data, pos + 10)
        &&& v.parent.index == le_i32(data, pos + 14)
        &&& v.children_id.entry_index == le_i32(data, pos + 18)
        &&& v.data_id.entry_index == le_i32(data, pos + 22)
    }

    fn new(reader: &mut ReaderCursor) -> (res: ParserResult<Self>) {
        let range = TRange::new(reader)?;
        let a = reader.read_i32();
        let b = reader.read_i32();
        let c = reader.read_i32();
        let e = reader.read_i32();
        match (a, b, c, e) {
            (Some(a), Some(b), Some(c), Some(e)) => Ok(
                FMovieSceneEvaluationTreeNode {
                    range,
                    parent: FMovieSceneEvaluationTreeNodeHandle {
                        children_handle: FEvaluationTreeEntryHandle { entry_index: a },
                        index: b,
                    },
                    children_id: FEvaluationTreeEntryHandle { entry_index: c },
                    data_id: FEvaluationTreeEntryHandle { entry_index: e },
                },
            ),
            _ => Err(error_msg("File Error: failed to fill whole buffer")),
        }
    }
}

/// An entry of an evaluation tree container: where its items start, how many
/// there are, and the capacity.
#[derive(Debug, Clone, Copy)]
pub struct FEntry {
    pub start_index: i32,
    pub size: i32,
    pub capacity: i32,
}

impl Newable for FEntry {
    open spec fn spec_ok(data: Seq<u8>, pos: int) -> bool {
        avail(data, pos, 12)
    }

    open spec fn spec_end(data: Seq<u8>, pos: int) -> int {
        pos + 12
    }

    open spec fn spec_is(data: Seq<u8>, pos: int, v: Self) -> bool {
        v.start_index == le_i32(data, pos) && v.size == le_i32(data, pos + 4) && v.capacity == le_i32(
            data,
            pos + 8,
        )
    }

    fn new(reader: &mut ReaderCursor) -> (res: ParserResult<Self>) {
        let a = reader.read_i32();
        let b = reader.read_i32();
        let c = reader.read_i32();
        match (a, b, c) {
            (Some(a), Some(b), Some(c)) => Ok(FEntry { start_index: a, size: b, capacity: c }),
            _ => Err(error_msg("File Error: failed to fill whole buffer")),
        }
    }
}

/// The child nodes of an evaluation tree: entries, then the nodes.
#[derive(Debug)]
pub struct TEvaluationTreeEntryContainer {
    pub entries: Vec<FEntry>,
    pub items: Vec<FMovieSceneEvaluationTreeNode>,
}

impl Newable for TEvaluationTreeEntryContainer {
    open spec fn spec_ok(data: Seq<u8>, pos: int) -> bool {
        tarray_ok::<FEntry>(data, pos) && tarray_ok::<FMovieSceneEvaluationTreeNode>(
            data,
            tarray_end::<FEntry>(data, pos),
        )
    }

    open spec fn spec_end(data: Seq<u8>, pos: int) -> int {
        tarray_end::<FMovieSceneEvaluationTreeNode>(data, tarray_end::<FEntry>(data, pos))
    }

    open spec fn spec_is(data: Seq<u8>, pos: int, v: Self) -> bool {
        tarray_is::<FEntry>(data, pos, v.entries@) && tarray_is::<FMovieSceneEvaluationTreeNode>(
            data,
            tarray_end::<FEntry>(data, pos),
            v.items@,
        )
    }

    fn new(reader: &mut ReaderCursor) -> (res: ParserResult<Self>) {
        let entries = read_tarray(reader)?;
        let items = read_tarray(reader)?;
        Ok(TEvaluationTreeEntryContainer { entries, items })
    }
}

/// An evaluation tree: its root node and its child nodes.
#[derive(Debug)]
pub struct FMovieSceneEvaluationTree {
    pub root_node: FMovieSceneEvaluationTreeNode,
    pub child_nodes: TEvaluationTreeEntryContainer,
}

impl Newable for FMovieSceneEvaluationTree {
    open spec fn spec_ok(data: Seq<u8>, pos: int) -> bool {
        FMovieSceneEvaluationTreeNode::spec_ok(data, pos) && TEvaluationTreeEntryContainer::spec_ok(
            data,
            pos + 26,
        )
    }

    open spec fn spec_end(data: Seq<u8>, pos: int) -> int {
        TEvaluationTreeEntryContainer::spec_end(data, pos + 26)
    }

    open spec fn spec_is(data: Seq<u8>, pos: int, v: Self) -> bool {
        FMovieSceneEvaluationTreeNode::spec_is(data, pos, v.root_node) && TEvaluationTreeEntryContainer::spec_is(
            data,
            pos + 26,
            v.child_nodes,
        )
    }

    fn new(reader: &mut ReaderCursor) -> (res: ParserResult<Self>) {
        let root_node = FMovieSceneEvaluationTreeNode::new(reader)?;
        let child_nodes = TEvaluationTreeEntryContainer::new(reader)?;
        Ok(FMovieSceneEvaluationTree { root_node, child_nodes })
    }
}

/// A reference of a level sequence: two ids and an object path.
#[derive(Debug)]
pub struct FLevelSequenceLegacyObjectReference {
    pub key_guid: FGuid,
    pub object_id: FGuid,
    pub object_path: String,
}

impl Newable for FLevelSequenceLegacyObjectReference {
    open spec fn spec_ok(data: Seq<u8>, pos: int) -> bool {
        avail(data, pos, 32) && spec_string(data, pos + 32) is Some
    }

    open spec fn spec_end(data: Seq<u8>, pos: int) -> int {
        spec_string(data, pos + 32).unwrap().1
    }

    open spec fn spec_is(data: Seq<u8>, pos: int, v: Self) -> bool {
        FGuid::spec_is(data, pos, v.key_guid) && FGuid::spec_is(data, pos + 16, v.object_id) && v.object_path@
            == spec_string(data, pos + 32).unwrap().0
    }

    fn new(reader: &mut ReaderCursor) -> (res: ParserResult<Self>) {
        let key_guid = FGuid::new(reader)?;
        let object_id = FGuid::new(reader)?;
        let object_path = read_string(reader)?;
        Ok(FLevelSequenceLegacyObjectReference { key_guid, object_id, object_path })
    }
}

/// A weighted random sampler: probabilities (single precision), aliases and
/// the total weight (single precision).
#[derive(Debug)]
pub struct FWeightedRandomSampler {
    pub prob: Vec<u32>,
    pub alias: Vec<i32>,
    pub total_weight: u32,
}

impl Newable for FWeightedRandomSampler {
    open spec fn spec_ok(data: Seq<u8>, pos: int) -> bool {
        &&& tarray_ok::<u32>(data, pos)
        &&& tarray_ok::<i32>(data, tarray_end::<u32>(data, pos))
        &&& avail(data, tarray_end::<i32>(data, tarray_end::<u32>(data, pos)), 4)
    }

    open spec fn spec_end(data: Seq<u8>, pos: int) -> int {
        tarray_end::<i32>(data, tarray_end::<u32>(data, pos)) + 4
    }

    open spec fn spec_is(data: Seq<u8>, pos: int, v: Self) -> bool {
        &&& tarray_is::<u32>(data, pos, v.prob@)
        &&& tarray_is::<i32>(data, tarray_end::<u32>(data, pos), v.alias@)
        &&& v.total_weight == le_u32(data, tarray_end::<i32>(data, tarray_end::<u32>(data, pos)))
    }

    fn new(reader: &mut ReaderCursor) -> (res: ParserResult<Self>) {
        let prob = read_tarray(reader)?;
        let alias = read_tarray(reader)?;
        match reader.read_u32() {
            Some(total_weight) => Ok(FWeightedRandomSampler { prob, alias, total_weight }),
            None => Err(error_msg("File Error: failed to fill whole buffer")),
        }
    }
}

} // verus!
