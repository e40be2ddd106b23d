//! Loader for Gaussian-splatting PLY files: 3DGS point clouds and
//! Space-Time Gaussian Lite (4DGS) models, stored as binary little-endian
//! vertex records.
//!
//! The loader reads the header, decides which kind of payload the vertex
//! properties describe, and reads every vertex record. Each value is handed
//! out as a [`Scalar`]: its PLY type and its little-endian bits, so that the
//! caller converts it to the number type it renders with.
use crate::text::{
    chars_eq_str, copy_range, lemma_split_lines_step, line_end, parse_usize, parse_usize_spec,
    range_eq, range_starts_with, split_lines, split_words, starts_with, str_chars, trim,
    trim_range, words,
};
use crate::bake::decimal;
use crate::bytes::{le_u64, le_uint};
use vstd::utf8::{decode_utf8, valid_utf8};
use vstd::prelude::*;

verus! {

/// The `format` of a PLY file.
#[derive(Debug, Clone, Copy, PartialEq, Eq, Structural)]
pub enum PlyFormat {
    Ascii,
    BinaryLittleEndian,
    BinaryBigEndian,
}

/// What the vertex properties of a PLY file describe.
#[derive(Debug, Clone, Copy, PartialEq, Eq, Structural)]
pub enum PlyPayloadKind {
    Gaussian3d,
    Gaussian4d,
    Unknown,
}

/// A PLY scalar property type.
#[derive(Debug, Clone, Copy, PartialEq, Eq, Structural)]
pub enum PlyScalarType {
    Char,
    UChar,
    Short,
    UShort,
    Int,
    UInt,
    Float,
    Double,
}

/// Why a PLY file was refused.
#[derive(Debug, Clone, Copy, PartialEq, Eq)]
pub enum PlyError {
    /// Neither `end_header\r\n` nor `end_header\n` occurs.
    MissingEndHeader,
    /// The header bytes are not UTF-8.
    HeaderNotUtf8,
    /// A `format` line does not start with the word `format`.
    InvalidFormatLine,
    /// A `format` line whose version is not `1.0`.
    UnsupportedFormatVersion,
    /// A `format` line naming an unknown format.
    UnsupportedFormat,
    /// `element vertex` without a count.
    MissingVertexCount,
    /// `element vertex` whose count is not a `usize`.
    InvalidVertexCount,
    /// A vertex `property list`.
    ListProperty,
    /// A vertex property line that does not have exactly three words.
    UnsupportedPropertyLine,
    /// A vertex property of an unknown scalar type.
    UnknownScalarType,
    /// No `format` line.
    MissingFormatLine,
    /// No `element vertex`.
    MissingVertexElement,
    /// The file is `ascii`.
    AsciiUnsupported,
    /// The file is `binary_big_endian`.
    BigEndianUnsupported,
    /// The vertex properties describe neither a 3DGS nor an STG-Lite model.
    UnsupportedPayload,
    /// A property that the payload needs is missing.
    MissingProperty(&'static str),
    /// `count * stride` does not fit in `usize`.
    BodySizeOverflow,
    /// `header_end + count * stride` does not fit in `usize`.
    TotalSizeOverflow,
    /// The file ends before the last vertex record.
    BodyTooShort { expected: usize, actual: usize },
}

/// One value of a vertex record: its PLY type and its little-endian bits
/// (zero-extended to 64 bits).
#[derive(Debug, Clone, Copy, PartialEq, Eq)]
pub struct Scalar {
    pub ty: PlyScalarType,
    pub bits: u64,
}

/// Where a property sits in a vertex record, and its type.
#[derive(Debug, Clone, Copy, PartialEq, Eq)]
pub struct PropRead {
    pub offset: usize,
    pub ty: PlyScalarType,
}

/// A scalar vertex property declared in the header.
#[derive(Debug)]
pub struct VertexProp {
    pub name: Vec<char>,
    pub ty: PlyScalarType,
    pub offset: usize,
}

/// The `vertex` element: record count, record size and properties.
#[derive(Debug)]
pub struct VertexLayout {
    pub count: usize,
    pub stride: usize,
    pub props: Vec<VertexProp>,
}

/// What a parsed header holds.
#[derive(Debug)]
pub struct PlyHeader {
    pub format: PlyFormat,
    pub header_end: usize,
    pub vertex_layout: VertexLayout,
    pub payload_kind: PlyPayloadKind,
}

pub ghost struct SpecRead {
    pub offset: nat,
    pub ty: PlyScalarType,
}

pub ghost struct PropView {
    pub name: Seq<char>,
    pub ty: PlyScalarType,
    pub offset: nat,
}

pub ghost struct LayoutView {
    pub count: nat,
    pub stride: nat,
    pub props: Seq<PropView>,
}

pub ghost struct HeaderView {
    pub format: PlyFormat,
    pub header_end: nat,
    pub layout: LayoutView,
    pub kind: PlyPayloadKind,
}

impl View for PropRead {
    type V = SpecRead;

    open spec fn view(&self) -> SpecRead {
        SpecRead { offset: self.offset as nat, ty: self.ty }
    }
}

impl View for VertexProp {
    type V = PropView;

    open spec fn view(&self) -> PropView {
        PropView { name: self.name@, ty: self.ty, offset: self.offset as nat }
    }
}

pub open spec fn props_view(props: Seq<VertexProp>) -> Seq<PropView> {
    props.map_values(|p: VertexProp| p@)
}

impl View for VertexLayout {
    type V = LayoutView;

    open spec fn view(&self) -> LayoutView {
        LayoutView {
            count: self.count as nat,
            stride: self.stride as nat,
            props: props_view(self.props@),
        }
    }
}

impl View for PlyHeader {
    type V = HeaderView;

    open spec fn view(&self) -> HeaderView {
        HeaderView {
            format: self.format,
            header_end: self.header_end as nat,
            layout: self.vertex_layout@,
            kind: self.payload_kind,
        }
    }
}

pub open spec fn read_view(r: Option<PropRead>) -> Option<SpecRead> {
    match r {
        Some(p) => Some(p@),
        None => None,
    }
}

/// Size in bytes of a value of type `ty`.
pub open spec fn scalar_size(ty: PlyScalarType) -> nat {
    match ty {
        PlyScalarType::Char | PlyScalarType::UChar => 1,
        PlyScalarType::Short | PlyScalarType::UShort => 2,
        PlyScalarType::Int | PlyScalarType::UInt | PlyScalarType::Float => 4,
        PlyScalarType::Double => 8,
    }
}

impl PlyScalarType {
    /// Size in bytes of a value of this type.
    pub fn size(self) -> (r: usize)
        ensures
            r == scalar_size(self),
    {
        match self {
            PlyScalarType::Char | PlyScalarType::UChar => 1,
            PlyScalarType::Short | PlyScalarType::UShort => 2,
            PlyScalarType::Int | PlyScalarType::UInt | PlyScalarType::Float => 4,
            PlyScalarType::Double => 8,
        }
    }
}

/// The first property named `name`, as where and how to read it.
pub open spec fn find_read(props: Seq<PropView>, name: Seq<char>) -> Option<SpecRead>
    decreases props.len(),
{
    if props.len() == 0 {
        None
    } else if props[0].name == name {
        Some(SpecRead { offset: props[0].offset, ty: props[0].ty })
    } else {
        find_read(props.drop_first(), name)
    }
}

pub open spec fn has_prop(l: LayoutView, name: &str) -> bool {
    find_read(l.props, name@) is Some
}

pub open spec fn has_all(l: LayoutView, names: Seq<&'static str>) -> bool {
    forall|i: int| 0 <= i < names.len() ==> has_prop(l, #[trigger] names[i])
}

pub open spec fn has_any(l: LayoutView, names: Seq<&'static str>) -> bool {
    exists|i: int| 0 <= i < names.len() && has_prop(l, #[trigger] names[i])
}

/// The properties that every Gaussian model has.
pub open spec fn core_3dgs_fields() -> Seq<&'static str> {
    seq![
        "x", "y", "z", "opacity", "scale_0", "scale_1", "scale_2", "rot_0", "rot_1", "rot_2",
        "rot_3", "f_dc_0", "f_dc_1", "f_dc_2",
    ]
}

/// The properties that an STG-Lite model adds.
pub open spec fn stg_lite_fields() -> Seq<&'static str> {
    seq![
        "trbf_center", "trbf_scale", "motion_0", "motion_1", "motion_2", "motion_3", "motion_4",
        "motion_5", "motion_6", "motion_7", "motion_8", "omega_0", "omega_1", "omega_2", "omega_3",
    ]
}

/// The properties a 3DGS vertex needs, in the order they are looked up:
/// position (3), opacity, scale (3), rotation (4).
pub open spec fn required_3d_fields() -> Seq<&'static str> {
    seq![
        "x", "y", "z", "opacity", "scale_0", "scale_1", "scale_2", "rot_0", "rot_1", "rot_2",
        "rot_3",
    ]
}

/// The spherical-harmonics properties of a 3DGS vertex: the three DC terms,
/// then the 45 others. A missing one reads as zero.
pub open spec fn sh_fields() -> Seq<&'static str> {
    seq![
        "f_dc_0", "f_dc_1", "f_dc_2", "f_rest_0", "f_rest_1", "f_rest_2", "f_rest_3", "f_rest_4",
        "f_rest_5", "f_rest_6", "f_rest_7", "f_rest_8", "f_rest_9", "f_rest_10", "f_rest_11",
        "f_rest_12", "f_rest_13", "f_rest_14", "f_rest_15", "f_rest_16", "f_rest_17", "f_rest_18",
        "f_rest_19", "f_rest_20", "f_rest_21", "f_rest_22", "f_rest_23", "f_rest_24", "f_rest_25",
        "f_rest_26", "f_rest_27", "f_rest_28", "f_rest_29", "f_rest_30", "f_rest_31", "f_rest_32",
        "f_rest_33", "f_rest_34", "f_rest_35", "f_rest_36", "f_rest_37", "f_rest_38", "f_rest_39",
        "f_rest_40", "f_rest_41", "f_rest_42", "f_rest_43", "f_rest_44",
    ]
}

/// The properties an STG-Lite vertex needs, in the order they are looked up:
/// motion (9), base color (3), omega (4), position (3), temporal center and
/// scale, opacity, scale (3), rotation (4).
pub open spec fn required_4d_fields() -> Seq<&'static str> {
    seq![
        "motion_0", "motion_1", "motion_2", "motion_3", "motion_4", "motion_5", "motion_6",
        "motion_7", "motion_8", "f_dc_0", "f_dc_1", "f_dc_2", "omega_0", "omega_1", "omega_2",
        "omega_3", "x", "y", "z", "trbf_center", "trbf_scale", "opacity", "scale_0", "scale_1",
        "scale_2", "rot_0", "rot_1", "rot_2", "rot_3",
    ]
}

fn core_3dgs_fields_exec() -> (r: Vec<&'static str>)
    ensures
        r@ == core_3dgs_fields(),
{
    let r = vec![
        "x", "y", "z", "opacity", "scale_0", "scale_1", "scale_2", "rot_0", "rot_1", "rot_2",
        "rot_3", "f_dc_0", "f_dc_1", "f_dc_2",
    ];
    assert(r@ =~= core_3dgs_fields());
    r
}

fn stg_lite_fields_exec() -> (r: Vec<&'static str>)
    ensures
        r@ == stg_lite_fields(),
{
    let r = vec![
        "trbf_center", "trbf_scale", "motion_0", "motion_1", "motion_2", "motion_3", "motion_4",
        "motion_5", "motion_6", "motion_7", "motion_8", "omega_0", "omega_1", "omega_2", "omega_3",
    ];
    assert(r@ =~= stg_lite_fields());
    r
}

fn required_3d_fields_exec() -> (r: Vec<&'static str>)
    ensures
        r@ == required_3d_fields(),
{
    let r = vec![
        "x", "y", "z", "opacity", "scale_0", "scale_1", "scale_2", "rot_0", "rot_1", "rot_2",
        "rot_3",
    ];
    assert(r@ =~= required_3d_fields());
    r
}

fn sh_fields_exec() -> (r: Vec<&'static str>)
    ensures
        r@ == sh_fields(),
{
    let r = vec![
        "f_dc_0", "f_dc_1", "f_dc_2", "f_rest_0", "f_rest_1", "f_rest_2", "f_rest_3", "f_rest_4",
        "f_rest_5", "f_rest_6", "f_rest_7", "f_rest_8", "f_rest_9", "f_rest_10", "f_rest_11",
        "f_rest_12", "f_rest_13", "f_rest_14", "f_rest_15", "f_rest_16", "f_rest_17", "f_rest_18",
        "f_rest_19", "f_rest_20", "f_rest_21", "f_rest_22", "f_rest_23", "f_rest_24", "f_rest_25",
        "f_rest_26", "f_rest_27", "f_rest_28", "f_rest_29", "f_rest_30", "f_rest_31", "f_rest_32",
        "f_rest_33", "f_rest_34", "f_rest_35", "f_rest_36", "f_rest_37", "f_rest_38", "f_rest_39",
        "f_rest_40", "f_rest_41", "f_rest_42", "f_rest_43", "f_rest_44",
    ];
    assert(r@ =~= sh_fields());
    r
}

fn required_4d_fields_exec() -> (r: Vec<&'static str>)
    ensures
        r@ == required_4d_fields(),
{
    let r = vec![
        "motion_0", "motion_1", "motion_2", "motion_3", "motion_4", "motion_5", "motion_6",
        "motion_7", "motion_8", "f_dc_0", "f_dc_1", "f_dc_2", "omega_0", "omega_1", "omega_2",
        "omega_3", "x", "y", "z", "trbf_center", "trbf_scale", "opacity", "scale_0", "scale_1",
        "scale_2", "rot_0", "rot_1", "rot_2", "rot_3",
    ];
    assert(r@ =~= required_4d_fields());
    r
}

/// Which payload the vertex properties describe: 3DGS needs the core fields;
/// with all STG-Lite fields too it is STG-Lite (4DGS); with only some of them
/// it is unknown.
pub open spec fn classify_spec(l: LayoutView) -> PlyPayloadKind {
    if !has_all(l, core_3dgs_fields()) {
        PlyPayloadKind::Unknown
    } else if has_all(l, stg_lite_fields()) {
        PlyPayloadKind::Gaussian4d
    } else if has_any(l, stg_lite_fields()) {
        PlyPayloadKind::Unknown
    } else {
        PlyPayloadKind::Gaussian3d
    }
}

impl VertexLayout {
    /// The first property named `name`.
    pub fn find(&self, name: &str) -> (r: Option<PropRead>)
        ensures
            read_view(r) == find_read(self@.props, name@),
    {
        let ghost all = props_view(self.props@);
        assert(all.skip(0) =~= all);
        let mut i: usize = 0;
        while i < self.props.len()
            invariant
                i <= self.props@.len(),
                all == props_view(self.props@),
                find_read(all, name@) == find_read(all.skip(i as int), name@),
            decreases self.props@.len() - i,
        {
            let p = &self.props[i];
            proof {
                let rest = all.skip(i as int);
                assert(rest[0] == p@);
                assert(rest.drop_first() =~= all.skip(i + 1));
            }
            if chars_eq_str(&p.name, name) {
                return Some(PropRead { offset: p.offset, ty: p.ty });
            }
            i = i + 1;
        }
        proof {
            assert(all.skip(i as int).len() == 0);
        }
        None
    }

    /// The property named `name`, which must be there.
    pub fn required(&self, name: &'static str) -> (r: Result<PropRead, PlyError>)
        ensures
            match r {
                Ok(p) => find_read(self@.props, name@) == Some(p@),
                Err(e) => find_read(self@.props, name@) is None && e == PlyError::MissingProperty(
                    name,
                ),
            },
    {
        match self.find(name) {
            Some(p) => Ok(p),
            None => Err(PlyError::MissingProperty(name)),
        }
    }

    /// Whether a property named `name` is there.
    pub fn has(&self, name: &str) -> (r: bool)
        ensures
            r == has_prop(self@, name),
    {
        self.find(name).is_some()
    }

    fn has_all(&self, names: &Vec<&'static str>) -> (r: bool)
        ensures
            r == has_all(self@, names@),
    {
        let mut i: usize = 0;
        while i < names.len()
            invariant
                i <= names@.len(),
                forall|j: int| 0 <= j < i ==> has_prop(self@, #[trigger] names@[j]),
            decreases names@.len() - i,
        {
            if !self.has(names[i]) {
                return false;
            }
            i = i + 1;
        }
        true
    }

    fn has_any(&self, names: &Vec<&'static str>) -> (r: bool)
        ensures
            r == has_any(self@, names@),
    {
        let mut i: usize = 0;
        while i < names.len()
            invariant
                i <= names@.len(),
                forall|j: int| 0 <= j < i ==> !has_prop(self@, #[trigger] names@[j]),
            decreases names@.len() - i,
        {
            if self.has(names[i]) {
                assert(has_prop(self@, names@[i as int]));
                return true;
            }
            i = i + 1;
        }
        false
    }
}

/// Which payload the vertex properties describe.
pub fn classify_ply_payload(layout: &VertexLayout) -> (r: PlyPayloadKind)
    ensures
        r == classify_spec(layout@),
{
    let core = core_3dgs_fields_exec();
    if !layout.has_all(&core) {
        return PlyPayloadKind::Unknown;
    }
    let stg = stg_lite_fields_exec();
    let has_any_stg_lite = layout.has_any(&stg);
    let has_all_stg_lite = layout.has_all(&stg);
    if has_all_stg_lite {
        PlyPayloadKind::Gaussian4d
    } else if has_any_stg_lite {
        PlyPayloadKind::Unknown
    } else {
        PlyPayloadKind::Gaussian3d
    }
}

/// The scalar type a PLY type name stands for.
pub open spec fn scalar_type_spec(s: Seq<char>) -> Option<PlyScalarType> {
    if s == "char"@ || s == "int8"@ {
        Some(PlyScalarType::Char)
    } else if s == "uchar"@ || s == "uint8"@ {
        Some(PlyScalarType::UChar)
    } else if s == "short"@ || s == "int16"@ {
        Some(PlyScalarType::Short)
    } else if s == "ushort"@ || s == "uint16"@ {
        Some(PlyScalarType::UShort)
    } else if s == "int"@ || s == "int32"@ {
        Some(PlyScalarType::Int)
    } else if s == "uint"@ || s == "uint32"@ {
        Some(PlyScalarType::UInt)
    } else if s == "float"@ || s == "float32"@ {
        Some(PlyScalarType::Float)
    } else if s == "double"@ || s == "float64"@ {
        Some(PlyScalarType::Double)
    } else {
        None
    }
}

fn range_is(c: &Vec<char>, lo: usize, hi: usize, s: &str) -> (r: bool)
    requires
        lo <= hi <= c@.len(),
    ensures
        r == (c@.subrange(lo as int, hi as int) == s@),
{
    let p = str_chars(s);
    range_eq(c, lo, hi, &p)
}

/// The scalar type a PLY type name stands for.
pub fn parse_scalar_type(s: &str) -> (r: Result<PlyScalarType, PlyError>)
    ensures
        match r {
            Ok(t) => scalar_type_spec(s@) == Some(t),
            Err(e) => scalar_type_spec(s@) is None && e == PlyError::UnknownScalarType,
        },
{
    let c = str_chars(s);
    let n: usize = c.len();
    assert(c@.subrange(0, n as int) =~= s@);
    scalar_type_in(&c, 0, n)
}

/// The scalar type named by `c[lo..hi]`.
fn scalar_type_in(c: &Vec<char>, lo: usize, hi: usize) -> (r: Result<
    PlyScalarType,
    PlyError,
>)
    requires
        lo <= hi <= c@.len(),
    ensures
        match r {
            Ok(t) => scalar_type_spec(c@.subrange(lo as int, hi as int)) == Some(t),
            Err(e) => scalar_type_spec(c@.subrange(lo as int, hi as int)) is None && e
                == PlyError::UnknownScalarType,
        },
{
    if range_is(c, lo, hi, "char") || range_is(c, lo, hi, "int8") {
        Ok(PlyScalarType::Char)
    } else if range_is(c, lo, hi, "uchar") || range_is(c, lo, hi, "uint8") {
        Ok(PlyScalarType::UChar)
    } else if range_is(c, lo, hi, "short") || range_is(c, lo, hi, "int16") {
        Ok(PlyScalarType::Short)
    } else if range_is(c, lo, hi, "ushort") || range_is(c, lo, hi, "uint16") {
        Ok(PlyScalarType::UShort)
    } else if range_is(c, lo, hi, "int") || range_is(c, lo, hi, "int32") {
        Ok(PlyScalarType::Int)
    } else if range_is(c, lo, hi, "uint") || range_is(c, lo, hi, "uint32") {
        Ok(PlyScalarType::UInt)
    } else if range_is(c, lo, hi, "float") || range_is(c, lo, hi, "float32") {
        Ok(PlyScalarType::Float)
    } else if range_is(c, lo, hi, "double") || range_is(c, lo, hi, "float64") {
        Ok(PlyScalarType::Double)
    } else {
        Err(PlyError::UnknownScalarType)
    }
}

/// What a `format` line declares.
pub open spec fn format_spec(line: Seq<char>) -> Result<PlyFormat, PlyError> {
    let w = words(line);
    if !(w.len() >= 1 && w[0] == "format"@) {
        Err(PlyError::InvalidFormatLine)
    } else if !(w.len() >= 3 && w[2] == "1.0"@) {
        Err(PlyError::UnsupportedFormatVersion)
    } else if w[1] == "ascii"@ {
        Ok(PlyFormat::Ascii)
    } else if w[1] == "binary_little_endian"@ {
        Ok(PlyFormat::BinaryLittleEndian)
    } else if w[1] == "binary_big_endian"@ {
        Ok(PlyFormat::BinaryBigEndian)
    } else {
        Err(PlyError::UnsupportedFormat)
    }
}

/// The format a `format` line declares.
pub fn parse_ply_format(line: &str) -> (r: Result<PlyFormat, PlyError>)
    ensures
        r == format_spec(line@),
{
    let c = str_chars(line);
    let n: usize = c.len();
    assert(c@.subrange(0, n as int) =~= line@);
    format_in(&c, 0, n)
}

/// The format declared by the line `c[lo..hi]`.
fn format_in(c: &Vec<char>, lo: usize, hi: usize) -> (r: Result<PlyFormat, PlyError>)
    requires
        lo <= hi <= c@.len(),
    ensures
        r == format_spec(c@.subrange(lo as int, hi as int)),
{
    let w = split_words(c, lo, hi);
    if !(w.len() >= 1 && range_is(c, w[0].0, w[0].1, "format")) {
        return Err(PlyError::InvalidFormatLine);
    }
    if !(w.len() >= 3 && range_is(c, w[2].0, w[2].1, "1.0")) {
        return Err(PlyError::UnsupportedFormatVersion);
    }
    if range_is(c, w[1].0, w[1].1, "ascii") {
        Ok(PlyFormat::Ascii)
    } else if range_is(c, w[1].0, w[1].1, "binary_little_endian") {
        Ok(PlyFormat::BinaryLittleEndian)
    } else if range_is(c, w[1].0, w[1].1, "binary_big_endian") {
        Ok(PlyFormat::BinaryBigEndian)
    } else {
        Err(PlyError::UnsupportedFormat)
    }
}

/// `needle` occurs in `h` at `i`.
pub open spec fn occurs_at(h: Seq<u8>, needle: Seq<u8>, i: int) -> bool {
    0 <= i && i + needle.len() <= h.len() && h.subrange(i, i + needle.len()) == needle
}

/// The first place at or after `i` where `needle` occurs in `h`.
pub open spec fn first_occurrence_from(h: Seq<u8>, needle: Seq<u8>, i: int) -> Option<int>
    decreases h.len() - i,
{
    if i < 0 || i >= h.len() || i + needle.len() > h.len() {
        None
    } else if occurs_at(h, needle, i) {
        Some(i)
    } else {
        first_occurrence_from(h, needle, i + 1)
    }
}

/// The first place where `needle` occurs in `h`.
pub open spec fn first_occurrence(h: Seq<u8>, needle: Seq<u8>) -> Option<int> {
    first_occurrence_from(h, needle, 0)
}

/// The bytes of `end_header\n`.
pub open spec fn end_header_lf() -> Seq<u8> {
    seq![101u8, 110, 100, 95, 104, 101, 97, 100, 101, 114, 10]
}

/// The bytes of `end_header\r\n`.
pub open spec fn end_header_crlf() -> Seq<u8> {
    seq![101u8, 110, 100, 95, 104, 101, 97, 100, 101, 114, 13, 10]
}

/// Where the header ends: just after the first `end_header\r\n` if there is
/// one, else just after the first `end_header\n`.
pub open spec fn header_end_spec(data: Seq<u8>) -> Option<int> {
    match first_occurrence(data, end_header_crlf()) {
        Some(p) => Some(p + 12),
        None => match first_occurrence(data, end_header_lf()) {
            Some(p) => Some(p + 11),
            None => None,
        },
    }
}

/// The first place where `needle` occurs in `haystack`.
pub fn find_bytes(haystack: &[u8], needle: &[u8]) -> (r: Option<usize>)
    requires
        needle@.len() > 0,
    ensures
        match r {
            Some(i) => first_occurrence(haystack@, needle@) == Some(i as int),
            None => first_occurrence(haystack@, needle@) is None,
        },
{
    let h_len: usize = haystack.len();
    let n_len: usize = needle.len();
    if n_len > h_len {
        return None;
    }
    let mut i: usize = 0;
    while i <= h_len - n_len
        invariant
            n_len == needle@.len() > 0,
            h_len == haystack@.len(),
            n_len <= h_len,
            i <= h_len,
            first_occurrence(haystack@, needle@) == first_occurrence_from(
                haystack@,
                needle@,
                i as int,
            ),
        decreases h_len - i,
    {
        let mut k: usize = 0;
        let mut same: bool = true;
        while k < n_len
            invariant
                n_len == needle@.len(),
                h_len == haystack@.len(),
                i + n_len <= h_len,
                k <= n_len,
                same == (forall|j: int| 0 <= j < k ==> haystack@[i + j] == needle@[j]),
            decreases n_len - k,
        {
            if haystack[i + k] != needle[k] {
                same = false;
            }
            k = k + 1;
        }
        proof {
            let w = haystack@.subrange(i as int, i + n_len);
            if same {
                assert(w =~= needle@);
            } else {
                let j = choose|j: int| 0 <= j < n_len && haystack@[i + j] != needle@[j];
                assert(w[j] != needle@[j]);
            }
        }
        if same {
            return Some(i);
        }
        i = i + 1;
    }
    None
}

/// Where the header ends (see [`header_end_spec`]).
pub fn find_header_end(data: &[u8]) -> (r: Option<usize>)
    ensures
        match r {
            Some(e) => header_end_spec(data@) == Some(e as int) && e <= data@.len(),
            None => header_end_spec(data@) is None,
        },
{
    let data_len: usize = data.len();
    let crlf: Vec<u8> = vec![101u8, 110, 100, 95, 104, 101, 97, 100, 101, 114, 13, 10];
    assert(crlf@ =~= end_header_crlf());
    let crlf_slice = crlf.as_slice();
    assert(crlf_slice@ == end_header_crlf());
    if let Some(pos) = find_bytes(data, crlf_slice) {
        proof {
            lemma_first_occurrence_fits(data@, end_header_crlf(), 0);
            assert(pos + 12 <= data_len);
        }
        return Some(pos + 12);
    }
    let lf: Vec<u8> = vec![101u8, 110, 100, 95, 104, 101, 97, 100, 101, 114, 10];
    assert(lf@ =~= end_header_lf());
    let lf_slice = lf.as_slice();
    assert(lf_slice@ == end_header_lf());
    if let Some(pos) = find_bytes(data, lf_slice) {
        proof {
            lemma_first_occurrence_fits(data@, end_header_lf(), 0);
            assert(pos + 11 <= data_len);
        }
        return Some(pos + 11);
    }
    None
}

/// A found occurrence lies within the haystack.
proof fn lemma_first_occurrence_fits(h: Seq<u8>, needle: Seq<u8>, i: int)
    ensures
        first_occurrence_from(h, needle, i) matches Some(p) ==> i <= p && p + needle.len() <= h.len(),
    decreases h.len() - i,
{
    if !(i < 0 || i >= h.len() || i + needle.len() > h.len()) && !occurs_at(h, needle, i) {
        lemma_first_occurrence_fits(h, needle, i + 1);
    }
}

/// `std::str::from_utf8`: `Some` exactly when the bytes are UTF-8, and then
/// the text they encode.
#[verifier::external_body]
fn str_from_utf8(bytes: &[u8]) -> (r: Option<&str>)
    ensures
        r is Some <==> valid_utf8(bytes@),
        r matches Some(s) ==> s@ == decode_utf8(bytes@),
{
    match std::str::from_utf8(bytes) {
        Ok(s) => Some(s),
        Err(_) => None,
    }
}

/// What the header lines read so far declare.
pub ghost struct HeaderState {
    pub format: Option<PlyFormat>,
    pub in_vertex: bool,
    pub vertex_count: Option<usize>,
    pub props: Seq<PropView>,
    pub stride: nat,
}

pub open spec fn initial_header_state() -> HeaderState {
    HeaderState { format: None, in_vertex: false, vertex_count: None, props: seq![], stride: 0 }
}

/// What one trimmed header line does: comments, `obj_info`, `ply` and blank
/// lines are skipped; a `format` line sets the format; `element vertex N`
/// starts the vertex element afresh, another `element` ends it; a `property`
/// line inside the vertex element adds a scalar property at the end of the
/// record; every other line is skipped.
pub open spec fn header_step(st: HeaderState, line: Seq<char>) -> Result<HeaderState, PlyError> {
    if line.len() == 0 || starts_with(line, "comment "@) || starts_with(line, "obj_info "@) {
        Ok(st)
    } else if line == "ply"@ {
        Ok(st)
    } else if starts_with(line, "format "@) {
        match format_spec(line) {
            Ok(f) => Ok(HeaderState { format: Some(f), ..st }),
            Err(e) => Err(e),
        }
    } else if starts_with(line, "element "@) {
        let w = words(line);
        if w.len() >= 2 && w[1] == "vertex"@ {
            if w.len() < 3 {
                Err(PlyError::MissingVertexCount)
            } else {
                match parse_usize_spec(w[2]) {
                    Some(n) => Ok(
                        HeaderState {
                            in_vertex: true,
                            vertex_count: Some(n),
                            props: seq![],
                            stride: 0,
                            ..st
                        },
                    ),
                    None => Err(PlyError::InvalidVertexCount),
                }
            }
        } else {
            Ok(HeaderState { in_vertex: false, ..st })
        }
    } else if st.in_vertex && starts_with(line, "property "@) {
        let w = words(line);
        if w.len() >= 2 && w[1] == "list"@ {
            Err(PlyError::ListProperty)
        } else if w.len() != 3 {
            Err(PlyError::UnsupportedPropertyLine)
        } else {
            match scalar_type_spec(w[1]) {
                Some(ty) => Ok(
                    HeaderState {
                        props: st.props.push(PropView { name: w[2], ty, offset: st.stride }),
                        stride: st.stride + scalar_size(ty),
                        ..st
                    },
                ),
                None => Err(PlyError::UnknownScalarType),
            }
        }
    } else {
        Ok(st)
    }
}

/// The header lines, trimmed, applied in order; the first refused line ends it.
pub open spec fn header_fold(lines: Seq<Seq<char>>, st: HeaderState) -> Result<
    HeaderState,
    PlyError,
>
    decreases lines.len(),
{
    if lines.len() == 0 {
        Ok(st)
    } else {
        match header_step(st, trim(lines[0])) {
            Ok(next) => header_fold(lines.drop_first(), next),
            Err(e) => Err(e),
        }
    }
}

/// The header of a PLY file: where it ends, its format, the vertex element and
/// the payload kind.
pub open spec fn header_spec(data: Seq<u8>) -> Result<HeaderView, PlyError> {
    match header_end_spec(data) {
        None => Err(PlyError::MissingEndHeader),
        Some(end) => {
            let bytes = data.take(end);
            if !valid_utf8(bytes) {
                Err(PlyError::HeaderNotUtf8)
            } else {
                match header_fold(split_lines(decode_utf8(bytes)), initial_header_state()) {
                    Err(e) => Err(e),
                    Ok(st) => match st.format {
                        None => Err(PlyError::MissingFormatLine),
                        Some(f) => match st.vertex_count {
                            None => Err(PlyError::MissingVertexElement),
                            Some(n) => {
                                let l = LayoutView {
                                    count: n as nat,
                                    stride: st.stride,
                                    props: st.props,
                                };
                                Ok(
                                    HeaderView {
                                        format: f,
                                        header_end: end as nat,
                                        layout: l,
                                        kind: classify_spec(l),
                                    },
                                )
                            },
                        },
                    },
                }
            }
        },
    }
}

/// Every property lies within the record.
pub open spec fn layout_wf(l: LayoutView) -> bool {
    forall|i: int|
        0 <= i < l.props.len() ==> #[trigger] l.props[i].offset + scalar_size(l.props[i].ty)
            <= l.stride
}

/// A property found in a well-formed layout lies within the record.
pub proof fn lemma_find_read_fits(props: Seq<PropView>, stride: nat, name: Seq<char>)
    requires
        forall|i: int|
            0 <= i < props.len() ==> #[trigger] props[i].offset + scalar_size(props[i].ty)
                <= stride,
    ensures
        find_read(props, name) matches Some(r) ==> r.offset + scalar_size(r.ty) <= stride,
    decreases props.len(),
{
    if props.len() > 0 && props[0].name != name {
        assert forall|i: int| 0 <= i < props.drop_first().len() implies #[trigger] props.drop_first()[i].offset
            + scalar_size(props.drop_first()[i].ty) <= stride by {
            assert(props.drop_first()[i] == props[i + 1]);
        }
        lemma_find_read_fits(props.drop_first(), stride, name);
    }
}

struct HeaderBuilder {
    format: Option<PlyFormat>,
    in_vertex: bool,
    vertex_count: Option<usize>,
    props: Vec<VertexProp>,
    stride: usize,
}

impl View for HeaderBuilder {
    type V = HeaderState;

    closed spec fn view(&self) -> HeaderState {
        HeaderState {
            format: self.format,
            in_vertex: self.in_vertex,
            vertex_count: self.vertex_count,
            props: props_view(self.props@),
            stride: self.stride as nat,
        }
    }
}

impl HeaderBuilder {
    spec fn wf(&self) -> bool {
        forall|i: int|
            0 <= i < self.props@.len() ==> #[trigger] self.props@[i].offset + scalar_size(
                self.props@[i].ty,
            ) <= self.stride
    }
}

fn starts_with_str(c: &Vec<char>, lo: usize, hi: usize, p: &str) -> (r: bool)
    requires
        lo <= hi <= c@.len(),
    ensures
        r == starts_with(c@.subrange(lo as int, hi as int), p@),
{
    let pc = str_chars(p);
    range_starts_with(c, lo, hi, &pc)
}

/// Applies the header line `c[lo..hi]` (see [`header_step`]).
fn header_line(b: &mut HeaderBuilder, c: &Vec<char>, lo: usize, hi: usize) -> (r: Result<
    (),
    PlyError,
>)
    requires
        lo <= hi <= c@.len(),
        old(b).stride <= lo,
        old(b).wf(),
    ensures
        match r {
            Ok(()) => header_step(old(b)@, trim(c@.subrange(lo as int, hi as int))) == Ok::<
                HeaderState,
                PlyError,
            >(final(b)@) && final(b).stride <= hi && final(b).wf(),
            Err(e) => header_step(old(b)@, trim(c@.subrange(lo as int, hi as int))) == Err::<
                HeaderState,
                PlyError,
            >(e),
        },
{
    let (a, e) = trim_range(c, lo, hi);
    let ghost line = c@.subrange(a as int, e as int);
    if a == e || starts_with_str(c, a, e, "comment ") || starts_with_str(c, a, e, "obj_info ") {
        return Ok(());
    }
    if range_is(c, a, e, "ply") {
        return Ok(());
    }
    if starts_with_str(c, a, e, "format ") {
        let f = format_in(c, a, e);
        match f {
            Ok(f) => {
                b.format = Some(f);
                return Ok(());
            },
            Err(err) => {
                return Err(err);
            },
        }
    }
    if starts_with_str(c, a, e, "element ") {
        let w = split_words(c, a, e);
        if w.len() >= 2 && range_is(c, w[1].0, w[1].1, "vertex") {
            if w.len() < 3 {
                return Err(PlyError::MissingVertexCount);
            }
            match parse_usize(c, w[2].0, w[2].1) {
                Some(n) => {
                    b.in_vertex = true;
                    b.vertex_count = Some(n);
                    b.props = Vec::new();
                    b.stride = 0;
                    assert(props_view(b.props@) =~= seq![]);
                    return Ok(());
                },
                None => {
                    return Err(PlyError::InvalidVertexCount);
                },
            }
        } else {
            b.in_vertex = false;
            return Ok(());
        }
    }
    if b.in_vertex && starts_with_str(c, a, e, "property ") {
        let w = split_words(c, a, e);
        if w.len() >= 2 && range_is(c, w[1].0, w[1].1, "list") {
            return Err(PlyError::ListProperty);
        }
        if w.len() != 3 {
            return Err(PlyError::UnsupportedPropertyLine);
        }
        let ty = match scalar_type_in(c, w[1].0, w[1].1) {
            Ok(t) => t,
            Err(err) => {
                return Err(err);
            },
        };
        let name = copy_range(c, w[2].0, w[2].1);
        proof {
            reveal_strlit("property ");
        }
        let offset: usize = b.stride;
        let ghost old_props = props_view(b.props@);
        b.props.push(VertexProp { name, ty, offset });
        b.stride = offset + ty.size();
        assert(props_view(b.props@) =~= old_props.push(
            PropView { name: words(line)[2], ty, offset: offset as nat },
        ));
        return Ok(());
    }
    Ok(())
}

/// Reads the header of a PLY file (see [`header_spec`]).
pub fn parse_ply_header(data: &[u8]) -> (r: Result<PlyHeader, PlyError>)
    ensures
        match r {
            Ok(h) => header_spec(data@) == Ok::<HeaderView, PlyError>(h@) && layout_wf(h@.layout) && h.header_end
                <= data@.len(),
            Err(e) => header_spec(data@) == Err::<HeaderView, PlyError>(e),
        },
{
    let header_end = match find_header_end(data) {
        Some(e) => e,
        None => {
            return Err(PlyError::MissingEndHeader);
        },
    };
    let header_bytes = vstd::slice::slice_subrange(data, 0, header_end);
    assert(header_bytes@ =~= data@.take(header_end as int));
    let chars = match str_from_utf8(header_bytes) {
        Some(text) => str_chars(text),
        None => {
            return Err(PlyError::HeaderNotUtf8);
        },
    };
    let ghost all_lines = split_lines(chars@);
    let n: usize = chars.len();
    let mut b = HeaderBuilder {
        format: None,
        in_vertex: false,
        vertex_count: None,
        props: Vec::new(),
        stride: 0,
    };
    assert(props_view(b.props@) =~= seq![]);
    assert(b@ == initial_header_state());
    assert(chars@.subrange(0, n as int) =~= chars@);
    let mut p: usize = 0;
    loop
        invariant_except_break
            p <= n == chars@.len(),
            header_end_spec(data@) == Some(header_end as int),
            valid_utf8(data@.take(header_end as int)),
            chars@ == decode_utf8(data@.take(header_end as int)),
            b.stride <= p,
            b.wf(),
            all_lines == split_lines(chars@),
            header_fold(all_lines, initial_header_state()) == header_fold(
                split_lines(chars@.subrange(p as int, n as int)),
                b@,
            ),
        ensures
            b.wf(),
            header_fold(all_lines, initial_header_state()) == Ok::<HeaderState, PlyError>(b@),
        decreases n - p,
    {
        let e = line_end(&chars, p, n);
        proof {
            lemma_split_lines_step(chars@, p as int, e as int, n as int);
        }
        let ghost before = b@;
        let ghost rest = split_lines(chars@.subrange(p as int, n as int));
        let step = header_line(&mut b, &chars, p, e);
        proof {
            assert(rest[0] == chars@.subrange(p as int, e as int));
        }
        match step {
            Ok(()) => {},
            Err(err) => {
                assert(header_fold(rest, before) == Err::<HeaderState, PlyError>(err));
                return Err(err);
            },
        }
        if e == n {
            proof {
                assert(rest.drop_first().len() == 0);
                assert(header_fold(rest.drop_first(), b@) == Ok::<HeaderState, PlyError>(b@));
            }
            break ;
        }
        proof {
            assert(rest.drop_first() =~= split_lines(chars@.subrange(e + 1, n as int)));
        }
        p = e + 1;
    }
    let format = match b.format {
        Some(f) => f,
        None => {
            return Err(PlyError::MissingFormatLine);
        },
    };
    let count = match b.vertex_count {
        Some(n) => n,
        None => {
            return Err(PlyError::MissingVertexElement);
        },
    };
    let vertex_layout = VertexLayout { count, stride: b.stride, props: b.props };
    let payload_kind = classify_ply_payload(&vertex_layout);
    let h = PlyHeader { format, header_end, vertex_layout, payload_kind };
    assert(layout_wf(h@.layout));
    Ok(h)
}

/// The value of type `ty` stored at `pos` in `data`.
pub open spec fn scalar_at(data: Seq<u8>, pos: int, ty: PlyScalarType) -> Scalar {
    Scalar { ty, bits: le_uint(data.subrange(pos, pos + scalar_size(ty))) as u64 }
}

/// The property `r` of the record that starts at `base`.
pub open spec fn read_at(data: Seq<u8>, base: int, r: SpecRead) -> Scalar {
    scalar_at(data, base + r.offset, r.ty)
}

/// The optional property `r` of the record that starts at `base`.
pub open spec fn opt_read_at(data: Seq<u8>, base: int, r: Option<SpecRead>) -> Option<Scalar> {
    match r {
        Some(p) => Some(read_at(data, base, p)),
        None => None,
    }
}

/// Reads the value of type `ty` at `offset`.
pub fn read_scalar(data: &[u8], offset: usize, ty: PlyScalarType) -> (r: Scalar)
    requires
        offset + scalar_size(ty) <= data@.len(),
    ensures
        r == scalar_at(data@, offset as int, ty),
{
    let size: usize = ty.size();
    let data_len: usize = data.len();
    let bytes = vstd::slice::slice_subrange(data, offset, offset + size);
    let bits = le_u64(bytes);
    Scalar { ty, bits }
}

/// Reads the property `p` of the record that starts at `base`.
fn read_prop(data: &[u8], base: usize, p: PropRead) -> (r: Scalar)
    requires
        base + p.offset + scalar_size(p.ty) <= data@.len(),
    ensures
        r == read_at(data@, base as int, p@),
{
    let data_len: usize = data.len();
    read_scalar(data, base + p.offset, p.ty)
}

/// The first of `names[i..]` that has no property.
pub open spec fn first_missing_from(props: Seq<PropView>, names: Seq<&'static str>, i: int) -> Option<int>
    decreases names.len() - i,
{
    if i < 0 || i >= names.len() {
        None
    } else if find_read(props, names[i]@) is None {
        Some(i)
    } else {
        first_missing_from(props, names, i + 1)
    }
}

/// Looks up each of `names`; the first missing one is the error.
pub open spec fn lookup_all(props: Seq<PropView>, names: Seq<&'static str>) -> Result<
    Seq<SpecRead>,
    PlyError,
> {
    match first_missing_from(props, names, 0) {
        Some(i) => Err(PlyError::MissingProperty(names[i])),
        None => Ok(names.map_values(|n: &'static str| find_read(props, n@)->Some_0)),
    }
}

pub open spec fn reads_fit(reads: Seq<SpecRead>, stride: nat) -> bool {
    forall|k: int| 0 <= k < reads.len() ==> #[trigger] reads[k].offset + scalar_size(reads[k].ty) <= stride
}

pub open spec fn opt_reads_fit(reads: Seq<Option<SpecRead>>, stride: nat) -> bool {
    forall|k: int|
        0 <= k < reads.len() ==> (#[trigger] reads[k] matches Some(r) ==> r.offset + scalar_size(r.ty)
            <= stride)
}

pub open spec fn reads_view(v: Seq<PropRead>) -> Seq<SpecRead> {
    v.map_values(|p: PropRead| p@)
}

pub open spec fn opt_reads_view(v: Seq<Option<PropRead>>) -> Seq<Option<SpecRead>> {
    v.map_values(|p: Option<PropRead>| read_view(p))
}

/// Looks up each of `names` in `layout`, in order.
fn lookup_required(layout: &VertexLayout, names: &Vec<&'static str>) -> (r: Result<Vec<PropRead>, PlyError>)
    ensures
        match r {
            Ok(v) => lookup_all(layout@.props, names@) == Ok::<Seq<SpecRead>, PlyError>(reads_view(v@))
                && (layout_wf(layout@) ==> reads_fit(reads_view(v@), layout@.stride)),
            Err(e) => lookup_all(layout@.props, names@) == Err::<Seq<SpecRead>, PlyError>(e),
        },
{
    let ghost props = layout@.props;
    let mut out: Vec<PropRead> = Vec::new();
    let mut i: usize = 0;
    while i < names.len()
        invariant
            props == layout@.props,
            i <= names@.len(),
            first_missing_from(props, names@, 0) == first_missing_from(props, names@, i as int),
            reads_view(out@) =~= names@.take(i as int).map_values(
                |n: &'static str| find_read(props, n@)->Some_0,
            ),
            forall|k: int| 0 <= k < i ==> find_read(props, (#[trigger] names@[k])@) is Some,
            layout_wf(layout@) ==> reads_fit(reads_view(out@), layout@.stride),
        decreases names@.len() - i,
    {
        let p = match layout.required(names[i]) {
            Ok(p) => p,
            Err(e) => {
                return Err(e);
            },
        };
        proof {
            if layout_wf(layout@) {
                lemma_find_read_fits(props, layout@.stride, names@[i as int]@);
            }
        }
        let ghost old_out = out@;
        out.push(p);
        proof {
            assert(reads_view(out@) =~= reads_view(old_out).push(p@));
            assert(names@.take(i + 1) =~= names@.take(i as int).push(names@[i as int]));
        }
        i = i + 1;
        assert(reads_view(out@) =~= names@.take(i as int).map_values(
            |n: &'static str| find_read(props, n@)->Some_0,
        ));
    }
    proof {
        assert(names@.take(i as int) =~= names@);
        assert(first_missing_from(props, names@, i as int) is None);
    }
    Ok(out)
}

/// Looks up each of `names` in `layout`, where a missing one is `None`.
fn lookup_optional(layout: &VertexLayout, names: &Vec<&'static str>) -> (r: Vec<Option<PropRead>>)
    ensures
        opt_reads_view(r@) =~= names@.map_values(|n: &'static str| find_read(layout@.props, n@)),
        layout_wf(layout@) ==> opt_reads_fit(opt_reads_view(r@), layout@.stride),
{
    let ghost props = layout@.props;
    let mut out: Vec<Option<PropRead>> = Vec::new();
    let mut i: usize = 0;
    while i < names.len()
        invariant
            props == layout@.props,
            i <= names@.len(),
            opt_reads_view(out@) =~= names@.take(i as int).map_values(
                |n: &'static str| find_read(props, n@),
            ),
            layout_wf(layout@) ==> opt_reads_fit(opt_reads_view(out@), layout@.stride),
        decreases names@.len() - i,
    {
        let p = layout.find(names[i]);
        proof {
            if layout_wf(layout@) {
                lemma_find_read_fits(props, layout@.stride, names@[i as int]@);
            }
        }
        let ghost old_out = out@;
        out.push(p);
        proof {
            assert(opt_reads_view(out@) =~= opt_reads_view(old_out).push(read_view(p)));
            assert(names@.take(i + 1) =~= names@.take(i as int).push(names@[i as int]));
        }
        i = i + 1;
        assert(opt_reads_view(out@) =~= names@.take(i as int).map_values(
            |n: &'static str| find_read(props, n@),
        ));
    }
    assert(names@.take(i as int) =~= names@);
    out
}

/// Where each 3DGS property sits: the required ones in the order of
/// [`required_3d_fields`], the spherical harmonics in the order of [`sh_fields`].
#[derive(Debug)]
pub struct Gaussian3dLayout {
    pub vertex_count: usize,
    pub vertex_stride: usize,
    pub required: Vec<PropRead>,
    pub sh: Vec<Option<PropRead>>,
}

/// Where each STG-Lite property sits, in the order of [`required_4d_fields`].
#[derive(Debug)]
pub struct Gaussian4dLayout {
    pub vertex_count: usize,
    pub vertex_stride: usize,
    pub required: Vec<PropRead>,
}

pub ghost struct Layout3dView {
    pub count: nat,
    pub stride: nat,
    pub required: Seq<SpecRead>,
    pub sh: Seq<Option<SpecRead>>,
}

pub ghost struct Layout4dView {
    pub count: nat,
    pub stride: nat,
    pub required: Seq<SpecRead>,
}

impl View for Gaussian3dLayout {
    type V = Layout3dView;

    open spec fn view(&self) -> Layout3dView {
        Layout3dView {
            count: self.vertex_count as nat,
            stride: self.vertex_stride as nat,
            required: reads_view(self.required@),
            sh: opt_reads_view(self.sh@),
        }
    }
}

impl View for Gaussian4dLayout {
    type V = Layout4dView;

    open spec fn view(&self) -> Layout4dView {
        Layout4dView {
            count: self.vertex_count as nat,
            stride: self.vertex_stride as nat,
            required: reads_view(self.required@),
        }
    }
}

/// The 3DGS reading of a vertex layout.
pub open spec fn layout3d_spec(l: LayoutView) -> Result<Layout3dView, PlyError> {
    match lookup_all(l.props, required_3d_fields()) {
        Err(e) => Err(e),
        Ok(required) => Ok(
            Layout3dView {
                count: l.count,
                stride: l.stride,
                required,
                sh: sh_fields().map_values(|n: &'static str| find_read(l.props, n@)),
            },
        ),
    }
}

/// The STG-Lite reading of a vertex layout.
pub open spec fn layout4d_spec(l: LayoutView) -> Result<Layout4dView, PlyError> {
    match lookup_all(l.props, required_4d_fields()) {
        Err(e) => Err(e),
        Ok(required) => Ok(Layout4dView { count: l.count, stride: l.stride, required }),
    }
}

impl Gaussian3dLayout {
    /// Finds the 3DGS properties in `layout`.
    pub fn from_vertex_layout(layout: &VertexLayout) -> (r: Result<Self, PlyError>)
        ensures
            match r {
                Ok(l) => layout3d_spec(layout@) == Ok::<Layout3dView, PlyError>(l@) && (layout_wf(
                    layout@,
                ) ==> reads_fit(l@.required, l@.stride) && opt_reads_fit(l@.sh, l@.stride))
                    && l.required@.len() == 11 && l.sh@.len() == 48,
                Err(e) => layout3d_spec(layout@) == Err::<Layout3dView, PlyError>(e),
            },
    {
        let sh_names = sh_fields_exec();
        let sh = lookup_optional(layout, &sh_names);
        let names = required_3d_fields_exec();
        let required = match lookup_required(layout, &names) {
            Ok(v) => v,
            Err(e) => {
                return Err(e);
            },
        };
        let r = Gaussian3dLayout {
            vertex_count: layout.count,
            vertex_stride: layout.stride,
            required,
            sh,
        };
        assert(r@.sh =~= sh_fields().map_values(|n: &'static str| find_read(layout@.props, n@)));
        assert(r.required@.len() == reads_view(r.required@).len());
        assert(r.required@.len() == 11);
        assert(r.sh@.len() == 48);
        assert(layout3d_spec(layout@) == Ok::<Layout3dView, PlyError>(r@));
        Ok(r)
    }
}

impl Gaussian4dLayout {
    /// Finds the STG-Lite properties in `layout`.
    pub fn from_vertex_layout(layout: &VertexLayout) -> (r: Result<Self, PlyError>)
        ensures
            match r {
                Ok(l) => layout4d_spec(layout@) == Ok::<Layout4dView, PlyError>(l@) && (layout_wf(
                    layout@,
                ) ==> reads_fit(l@.required, l@.stride)) && l.required@.len() == 29,
                Err(e) => layout4d_spec(layout@) == Err::<Layout4dView, PlyError>(e),
            },
    {
        let names = required_4d_fields_exec();
        let required = match lookup_required(layout, &names) {
            Ok(v) => v,
            Err(e) => {
                return Err(e);
            },
        };
        let r = Gaussian4dLayout {
            vertex_count: layout.count,
            vertex_stride: layout.stride,
            required,
        };
        assert(r.required@.len() == reads_view(r.required@).len());
        assert(r.required@.len() == 29);
        assert(layout4d_spec(layout@) == Ok::<Layout4dView, PlyError>(r@));
        Ok(r)
    }
}

/// One 3DGS vertex as stored: position, opacity (logit), log-scale,
/// rotation quaternion and 48 spherical-harmonics coefficients (three DC terms,
/// then 45 others; a coefficient the file lacks is `None`).
#[derive(Debug, Clone)]
pub struct RawGaussian3d {
    pub position: [Scalar; 3],
    pub opacity: Scalar,
    pub scale: [Scalar; 3],
    pub rotation: [Scalar; 4],
    pub sh: Vec<Option<Scalar>>,
}

/// One STG-Lite vertex as stored.
#[derive(Debug, Clone, Copy)]
pub struct RawGaussian4d {
    pub position: [Scalar; 3],
    pub opacity: Scalar,
    pub scale: [Scalar; 3],
    pub rotation: [Scalar; 4],
    pub motion: [Scalar; 9],
    pub omega: [Scalar; 4],
    pub trbf_center: Scalar,
    pub trbf_scale: Scalar,
    pub base_color: [Scalar; 3],
}

/// The vertices of a Gaussian PLY file.
#[derive(Debug, Clone)]
pub enum RawGaussians {
    Gaussian3d(Vec<RawGaussian3d>),
    Gaussian4d(Vec<RawGaussian4d>),
}

pub ghost struct SpecGaussian3d {
    pub position: Seq<Scalar>,
    pub opacity: Scalar,
    pub scale: Seq<Scalar>,
    pub rotation: Seq<Scalar>,
    pub sh: Seq<Option<Scalar>>,
}

pub ghost struct SpecGaussian4d {
    pub position: Seq<Scalar>,
    pub opacity: Scalar,
    pub scale: Seq<Scalar>,
    pub rotation: Seq<Scalar>,
    pub motion: Seq<Scalar>,
    pub omega: Seq<Scalar>,
    pub trbf_center: Scalar,
    pub trbf_scale: Scalar,
    pub base_color: Seq<Scalar>,
}

pub ghost enum SpecGaussians {
    Gaussian3d(Seq<SpecGaussian3d>),
    Gaussian4d(Seq<SpecGaussian4d>),
}

impl View for RawGaussian3d {
    type V = SpecGaussian3d;

    open spec fn view(&self) -> SpecGaussian3d {
        SpecGaussian3d {
            position: self.position@,
            opacity: self.opacity,
            scale: self.scale@,
            rotation: self.rotation@,
            sh: self.sh@,
        }
    }
}

impl View for RawGaussian4d {
    type V = SpecGaussian4d;

    open spec fn view(&self) -> SpecGaussian4d {
        SpecGaussian4d {
            position: self.position@,
            opacity: self.opacity,
            scale: self.scale@,
            rotation: self.rotation@,
            motion: self.motion@,
            omega: self.omega@,
            trbf_center: self.trbf_center,
            trbf_scale: self.trbf_scale,
            base_color: self.base_color@,
        }
    }
}

pub open spec fn gaussians3d_view(v: Seq<RawGaussian3d>) -> Seq<SpecGaussian3d> {
    v.map_values(|g: RawGaussian3d| g@)
}

pub open spec fn gaussians4d_view(v: Seq<RawGaussian4d>) -> Seq<SpecGaussian4d> {
    v.map_values(|g: RawGaussian4d| g@)
}

impl View for RawGaussians {
    type V = SpecGaussians;

    open spec fn view(&self) -> SpecGaussians {
        match self {
            RawGaussians::Gaussian3d(v) => SpecGaussians::Gaussian3d(gaussians3d_view(v@)),
            RawGaussians::Gaussian4d(v) => SpecGaussians::Gaussian4d(gaussians4d_view(v@)),
        }
    }
}

/// The 3DGS vertex whose record starts at `base`.
pub open spec fn gaussian3d_at(data: Seq<u8>, base: int, l: Layout3dView) -> SpecGaussian3d {
    SpecGaussian3d {
        position: seq![
            read_at(data, base, l.required[0]),
            read_at(data, base, l.required[1]),
            read_at(data, base, l.required[2]),
        ],
        opacity: read_at(data, base, l.required[3]),
        scale: seq![
            read_at(data, base, l.required[4]),
            read_at(data, base, l.required[5]),
            read_at(data, base, l.required[6]),
        ],
        rotation: seq![
            read_at(data, base, l.required[7]),
            read_at(data, base, l.required[8]),
            read_at(data, base, l.required[9]),
            read_at(data, base, l.required[10]),
        ],
        sh: l.sh.map_values(|r: Option<SpecRead>| opt_read_at(data, base, r)),
    }
}

/// The STG-Lite vertex whose record starts at `base`.
pub open spec fn gaussian4d_at(data: Seq<u8>, base: int, l: Layout4dView) -> SpecGaussian4d {
    let q = l.required;
    SpecGaussian4d {
        position: seq![read_at(data, base, q[16]), read_at(data, base, q[17]), read_at(data, base, q[18])],
        opacity: read_at(data, base, q[21]),
        scale: seq![read_at(data, base, q[22]), read_at(data, base, q[23]), read_at(data, base, q[24])],
        rotation: seq![
            read_at(data, base, q[25]),
            read_at(data, base, q[26]),
            read_at(data, base, q[27]),
            read_at(data, base, q[28]),
        ],
        motion: q.take(9).map_values(|r: SpecRead| read_at(data, base, r)),
        omega: q.subrange(12, 16).map_values(|r: SpecRead| read_at(data, base, r)),
        trbf_center: read_at(data, base, q[19]),
        trbf_scale: read_at(data, base, q[20]),
        base_color: seq![read_at(data, base, q[9]), read_at(data, base, q[10]), read_at(data, base, q[11])],
    }
}

/// The size checks that come before the vertex records are read: the records
/// must fit in `usize` and in the file.
pub open spec fn body_size_spec(data_len: nat, header_end: nat, count: nat, stride: nat) -> Result<(), PlyError> {
    if count * stride > usize::MAX {
        Err(PlyError::BodySizeOverflow)
    } else if header_end + count * stride > usize::MAX {
        Err(PlyError::TotalSizeOverflow)
    } else if data_len < header_end + count * stride {
        Err(
            PlyError::BodyTooShort {
                expected: (header_end + count * stride) as usize,
                actual: data_len as usize,
            },
        )
    } else {
        Ok(())
    }
}

/// The 3DGS vertices of a file whose header ends at `header_end`.
pub open spec fn body3d_spec(data: Seq<u8>, header_end: nat, l: Layout3dView) -> Result<
    Seq<SpecGaussian3d>,
    PlyError,
> {
    match body_size_spec(data.len(), header_end, l.count, l.stride) {
        Err(e) => Err(e),
        Ok(()) => Ok(Seq::new(l.count, |i: int| gaussian3d_at(data, header_end + i * l.stride, l))),
    }
}

/// The STG-Lite vertices of a file whose header ends at `header_end`.
pub open spec fn body4d_spec(data: Seq<u8>, header_end: nat, l: Layout4dView) -> Result<
    Seq<SpecGaussian4d>,
    PlyError,
> {
    match body_size_spec(data.len(), header_end, l.count, l.stride) {
        Err(e) => Err(e),
        Ok(()) => Ok(Seq::new(l.count, |i: int| gaussian4d_at(data, header_end + i * l.stride, l))),
    }
}

/// Checks the body size (see [`body_size_spec`]).
fn check_body_size(data_len: usize, header_end: usize, count: usize, stride: usize) -> (r: Result<(), PlyError>)
    ensures
        r == body_size_spec(data_len as nat, header_end as nat, count as nat, stride as nat),
{
    let body = match count.checked_mul(stride) {
        Some(b) => b,
        None => {
            return Err(PlyError::BodySizeOverflow);
        },
    };
    let total = match header_end.checked_add(body) {
        Some(t) => t,
        None => {
            return Err(PlyError::TotalSizeOverflow);
        },
    };
    if data_len < total {
        return Err(PlyError::BodyTooShort { expected: total, actual: data_len });
    }
    Ok(())
}

proof fn lemma_record_fits(i: nat, count: nat, stride: nat)
    requires
        i < count,
    ensures
        i * stride + stride <= count * stride,
{
    assert((i + 1) * stride <= count * stride) by (nonlinear_arith)
        requires
            i + 1 <= count,
    ;
    assert((i + 1) * stride == i * stride + stride) by (nonlinear_arith);
}

/// Reads the 3DGS vertex records.
pub fn parse_3dgs_binary_le(data: &[u8], header: &PlyHeader) -> (r: Result<Vec<RawGaussian3d>, PlyError>)
    requires
        layout_wf(header@.layout),
    ensures
        match r {
            Ok(v) => match layout3d_spec(header@.layout) {
                Ok(l) => body3d_spec(data@, header@.header_end, l) == Ok::<Seq<SpecGaussian3d>, PlyError>(
                    gaussians3d_view(v@),
                ),
                Err(_) => false,
            },
            Err(e) => match layout3d_spec(header@.layout) {
                Ok(l) => body3d_spec(data@, header@.header_end, l) == Err::<Seq<SpecGaussian3d>, PlyError>(e),
                Err(e2) => e == e2,
            },
        },
        r matches Ok(v) ==> forall|i: int|
            0 <= i < v@.len() ==> #[trigger] vertex3d_by_name(v@[i]@, data@, header@.header_end, header@.layout, i),
{
    let layout = match Gaussian3dLayout::from_vertex_layout(&header.vertex_layout) {
        Ok(l) => l,
        Err(e) => {
            return Err(e);
        },
    };
    let ghost lv = layout@;
    let body_offset: usize = header.header_end;
    let count: usize = layout.vertex_count;
    let stride: usize = layout.vertex_stride;
    let data_len: usize = data.len();
    match check_body_size(data_len, body_offset, count, stride) {
        Ok(()) => {},
        Err(e) => {
            return Err(e);
        },
    }
    let mut out: Vec<RawGaussian3d> = Vec::new();
    let mut base: usize = body_offset;
    let mut i: usize = 0;
    while i < count
        invariant
            lv == layout@,
            count == lv.count,
            stride == lv.stride,
            layout.required@.len() == 11,
            layout.sh@.len() == 48,
            reads_fit(lv.required, lv.stride),
            opt_reads_fit(lv.sh, lv.stride),
            data_len == data@.len(),
            body_offset + count * stride <= data_len,
            i <= count,
            base == body_offset + i * stride,
            out@.len() == i,
            forall|k: int|
                0 <= k < i ==> (#[trigger] out@[k])@ == gaussian3d_at(
                    data@,
                    body_offset + k * stride,
                    lv,
                ),
        decreases count - i,
    {
        proof {
            lemma_record_fits(i as nat, count as nat, stride as nat);
        }
        let mut q: Vec<Scalar> = Vec::new();
        let mut k: usize = 0;
        while k < 11
            invariant
                lv == layout@,
                layout.required@.len() == 11,
                reads_fit(lv.required, lv.stride),
                data_len == data@.len(),
                base + stride <= data_len,
                stride == lv.stride,
                k <= 11,
                q@.len() == k,
                forall|j: int| 0 <= j < k ==> q@[j] == read_at(data@, base as int, #[trigger] lv.required[j]),
            decreases 11 - k,
        {
            let p = layout.required[k];
            assert(lv.required[k as int] == p@);
            q.push(read_prop(data, base, p));
            k = k + 1;
        }
        let mut sh: Vec<Option<Scalar>> = Vec::new();
        let mut j: usize = 0;
        while j < 48
            invariant
                lv == layout@,
                layout.sh@.len() == 48,
                opt_reads_fit(lv.sh, lv.stride),
                data_len == data@.len(),
                base + stride <= data_len,
                stride == lv.stride,
                j <= 48,
                sh@ =~= lv.sh.take(j as int).map_values(|r: Option<SpecRead>| opt_read_at(data@, base as int, r)),
            decreases 48 - j,
        {
            let o = layout.sh[j];
            assert(lv.sh[j as int] == read_view(o));
            let v = match o {
                Some(p) => Some(read_prop(data, base, p)),
                None => None,
            };
            let ghost old_sh = sh@;
            sh.push(v);
            proof {
                assert(lv.sh.take(j + 1) =~= lv.sh.take(j as int).push(lv.sh[j as int]));
            }
            j = j + 1;
            assert(sh@ =~= lv.sh.take(j as int).map_values(|r: Option<SpecRead>| opt_read_at(data@, base as int, r)));
        }
        assert(lv.sh.take(48) =~= lv.sh);
        let g = RawGaussian3d {
            position: [q[0], q[1], q[2]],
            opacity: q[3],
            scale: [q[4], q[5], q[6]],
            rotation: [q[7], q[8], q[9], q[10]],
            sh,
        };
        proof {
            assert(g.position@ =~= gaussian3d_at(data@, base as int, lv).position);
            assert(g.scale@ =~= gaussian3d_at(data@, base as int, lv).scale);
            assert(g.rotation@ =~= gaussian3d_at(data@, base as int, lv).rotation);
            assert(g@ == gaussian3d_at(data@, base as int, lv));
        }
        out.push(g);
        base = base + stride;
        i = i + 1;
        proof {
            assert(base == body_offset + i * stride) by (nonlinear_arith)
                requires
                    base == body_offset + (i - 1) * stride + stride,
            ;
        }
    }
    proof {
        let lo = layout3d_spec(header@.layout);
        assert(gaussians3d_view(out@) =~= Seq::new(
            lv.count,
            |i: int| gaussian3d_at(data@, body_offset + i * lv.stride, lv),
        ));
        assert forall|i: int| 0 <= i < out@.len() implies #[trigger] vertex3d_by_name(
            out@[i]@,
            data@,
            header@.header_end,
            header@.layout,
            i,
        ) by {
            lemma_3d_fields_by_name(data@, header@.header_end, header@.layout, i);
            assert(out@[i]@ == gaussians3d_view(out@)[i]);
        }
    }
    Ok(out)
}

/// Reads the STG-Lite vertex records.
pub fn parse_4dgs_binary_le(data: &[u8], header: &PlyHeader) -> (r: Result<Vec<RawGaussian4d>, PlyError>)
    requires
        layout_wf(header@.layout),
    ensures
        match r {
            Ok(v) => match layout4d_spec(header@.layout) {
                Ok(l) => body4d_spec(data@, header@.header_end, l) == Ok::<Seq<SpecGaussian4d>, PlyError>(
                    gaussians4d_view(v@),
                ),
                Err(_) => false,
            },
            Err(e) => match layout4d_spec(header@.layout) {
                Ok(l) => body4d_spec(data@, header@.header_end, l) == Err::<Seq<SpecGaussian4d>, PlyError>(e),
                Err(e2) => e == e2,
            },
        },
        r matches Ok(v) ==> forall|i: int|
            0 <= i < v@.len() ==> #[trigger] vertex4d_by_name(v@[i]@, data@, header@.header_end, header@.layout, i),
{
    let layout = match Gaussian4dLayout::from_vertex_layout(&header.vertex_layout) {
        Ok(l) => l,
        Err(e) => {
            return Err(e);
        },
    };
    let ghost lv = layout@;
    let body_offset: usize = header.header_end;
    let count: usize = layout.vertex_count;
    let stride: usize = layout.vertex_stride;
    let data_len: usize = data.len();
    match check_body_size(data_len, body_offset, count, stride) {
        Ok(()) => {},
        Err(e) => {
            return Err(e);
        },
    }
    let mut out: Vec<RawGaussian4d> = Vec::new();
    let mut base: usize = body_offset;
    let mut i: usize = 0;
    while i < count
        invariant
            lv == layout@,
            count == lv.count,
            stride == lv.stride,
            layout.required@.len() == 29,
            reads_fit(lv.required, lv.stride),
            data_len == data@.len(),
            body_offset + count * stride <= data_len,
            i <= count,
            base == body_offset + i * stride,
            out@.len() == i,
            forall|k: int|
                0 <= k < i ==> (#[trigger] out@[k])@ == gaussian4d_at(
                    data@,
                    body_offset + k * stride,
                    lv,
                ),
        decreases count - i,
    {
        proof {
            lemma_record_fits(i as nat, count as nat, stride as nat);
        }
        let mut q: Vec<Scalar> = Vec::new();
        let mut k: usize = 0;
        while k < 29
            invariant
                lv == layout@,
                layout.required@.len() == 29,
                reads_fit(lv.required, lv.stride),
                data_len == data@.len(),
                base + stride <= data_len,
                stride == lv.stride,
                k <= 29,
                q@.len() == k,
                forall|j: int| 0 <= j < k ==> q@[j] == read_at(data@, base as int, #[trigger] lv.required[j]),
            decreases 29 - k,
        {
            let p = layout.required[k];
            assert(lv.required[k as int] == p@);
            q.push(read_prop(data, base, p));
            k = k + 1;
        }
        let g = RawGaussian4d {
            position: [q[16], q[17], q[18]],
            opacity: q[21],
            scale: [q[22], q[23], q[24]],
            rotation: [q[25], q[26], q[27], q[28]],
            motion: [q[0], q[1], q[2], q[3], q[4], q[5], q[6], q[7], q[8]],
            omega: [q[12], q[13], q[14], q[15]],
            trbf_center: q[19],
            trbf_scale: q[20],
            base_color: [q[9], q[10], q[11]],
        };
        proof {
            let want = gaussian4d_at(data@, base as int, lv);
            assert(g.position@ =~= want.position);
            assert(g.scale@ =~= want.scale);
            assert(g.rotation@ =~= want.rotation);
            assert(g.motion@ =~= want.motion);
            assert(g.omega@ =~= want.omega);
            assert(g.base_color@ =~= want.base_color);
            assert(g@ == want);
        }
        out.push(g);
        base = base + stride;
        i = i + 1;
        proof {
            assert(base == body_offset + i * stride) by (nonlinear_arith)
                requires
                    base == body_offset + (i - 1) * stride + stride,
            ;
        }
    }
    proof {
        assert(gaussians4d_view(out@) =~= Seq::new(
            lv.count,
            |i: int| gaussian4d_at(data@, body_offset + i * lv.stride, lv),
        ));
        assert forall|i: int| 0 <= i < out@.len() implies #[trigger] vertex4d_by_name(
            out@[i]@,
            data@,
            header@.header_end,
            header@.layout,
            i,
        ) by {
            lemma_4d_fields_by_name(data@, header@.header_end, header@.layout, i);
            assert(out@[i]@ == gaussians4d_view(out@)[i]);
        }
    }
    Ok(out)
}

/// Only binary little-endian files are read.
pub open spec fn supported_format_spec(f: PlyFormat) -> Result<(), PlyError> {
    match f {
        PlyFormat::BinaryLittleEndian => Ok(()),
        PlyFormat::Ascii => Err(PlyError::AsciiUnsupported),
        PlyFormat::BinaryBigEndian => Err(PlyError::BigEndianUnsupported),
    }
}

/// The vertices of a file with header `h`, by its payload kind.
pub open spec fn body_spec(data: Seq<u8>, h: HeaderView) -> Result<SpecGaussians, PlyError> {
    match h.kind {
        PlyPayloadKind::Gaussian3d => match layout3d_spec(h.layout) {
            Err(e) => Err(e),
            Ok(l) => match body3d_spec(data, h.header_end, l) {
                Err(e) => Err(e),
                Ok(v) => Ok(SpecGaussians::Gaussian3d(v)),
            },
        },
        PlyPayloadKind::Gaussian4d => match layout4d_spec(h.layout) {
            Err(e) => Err(e),
            Ok(l) => match body4d_spec(data, h.header_end, l) {
                Err(e) => Err(e),
                Ok(v) => Ok(SpecGaussians::Gaussian4d(v)),
            },
        },
        PlyPayloadKind::Unknown => Err(PlyError::UnsupportedPayload),
    }
}

/// What a Gaussian PLY file holds: its header is read, only binary
/// little-endian files are accepted, and the vertex records are read as the
/// payload kind says.
pub open spec fn ply_spec(data: Seq<u8>) -> Result<SpecGaussians, PlyError> {
    match header_spec(data) {
        Err(e) => Err(e),
        Ok(h) => match supported_format_spec(h.format) {
            Err(e) => Err(e),
            Ok(()) => body_spec(data, h),
        },
    }
}

/// Refuses every format but binary little-endian.
pub fn ensure_supported_ply_format(header: &PlyHeader) -> (r: Result<(), PlyError>)
    ensures
        r == supported_format_spec(header.format),
{
    match header.format {
        PlyFormat::BinaryLittleEndian => Ok(()),
        PlyFormat::Ascii => Err(PlyError::AsciiUnsupported),
        PlyFormat::BinaryBigEndian => Err(PlyError::BigEndianUnsupported),
    }
}

/// Reads the vertex records as the payload kind says.
pub fn parse_gaussian_ply_body(data: &[u8], header: &PlyHeader) -> (r: Result<RawGaussians, PlyError>)
    requires
        layout_wf(header@.layout),
    ensures
        match r {
            Ok(g) => body_spec(data@, header@) == Ok::<SpecGaussians, PlyError>(g@),
            Err(e) => body_spec(data@, header@) == Err::<SpecGaussians, PlyError>(e),
        },
{
    match header.payload_kind {
        PlyPayloadKind::Gaussian3d => match parse_3dgs_binary_le(data, header) {
            Ok(v) => Ok(RawGaussians::Gaussian3d(v)),
            Err(e) => Err(e),
        },
        PlyPayloadKind::Gaussian4d => match parse_4dgs_binary_le(data, header) {
            Ok(v) => Ok(RawGaussians::Gaussian4d(v)),
            Err(e) => Err(e),
        },
        PlyPayloadKind::Unknown => Err(PlyError::UnsupportedPayload),
    }
}

/// Reads a Gaussian PLY file: a 3DGS point cloud or an STG-Lite model, binary
/// little-endian (see [`ply_spec`]).
pub fn parse_gaussian_ply_bytes(data: &[u8]) -> (r: Result<RawGaussians, PlyError>)
    ensures
        match r {
            Ok(g) => ply_spec(data@) == Ok::<SpecGaussians, PlyError>(g@),
            Err(e) => ply_spec(data@) == Err::<SpecGaussians, PlyError>(e),
        },
{
    let header = match parse_ply_header(data) {
        Ok(h) => h,
        Err(e) => {
            return Err(e);
        },
    };
    match ensure_supported_ply_format(&header) {
        Ok(()) => {},
        Err(e) => {
            return Err(e);
        },
    }
    parse_gaussian_ply_body(data, &header)
}

/// A loaded file holds exactly as many Gaussians as its `element vertex`
/// line declares, and only a binary little-endian file is loaded.
pub proof fn lemma_loaded_count(data: Seq<u8>)
    ensures
        ply_spec(data) is Ok ==> header_spec(data) is Ok && header_spec(data)->Ok_0.format
            == PlyFormat::BinaryLittleEndian && match ply_spec(data)->Ok_0 {
            SpecGaussians::Gaussian3d(v) => v.len() == header_spec(data)->Ok_0.layout.count
                && header_spec(data)->Ok_0.kind == PlyPayloadKind::Gaussian3d,
            SpecGaussians::Gaussian4d(v) => v.len() == header_spec(data)->Ok_0.layout.count
                && header_spec(data)->Ok_0.kind == PlyPayloadKind::Gaussian4d,
        },
{
}

/// A file is read as STG-Lite exactly when it has every 3DGS core field and
/// every STG-Lite field, and as 3DGS exactly when it has every core field and
/// none of the STG-Lite fields.
pub proof fn lemma_payload_kinds(l: LayoutView)
    ensures
        classify_spec(l) == PlyPayloadKind::Gaussian4d <==> has_all(l, core_3dgs_fields())
            && has_all(l, stg_lite_fields()),
        classify_spec(l) == PlyPayloadKind::Gaussian3d <==> has_all(l, core_3dgs_fields())
            && !has_any(l, stg_lite_fields()),
{
    if has_all(l, stg_lite_fields()) {
        assert(has_prop(l, stg_lite_fields()[0]));
    }
}

/// The property named `name` of vertex `i`, read from that vertex's own
/// record: the `i`-th record of `l.stride` bytes after the header, which ends
/// at `header_end`. `None` when the layout has no such property.
pub open spec fn vertex_prop(data: Seq<u8>, header_end: nat, l: LayoutView, i: int, name: &str) -> Option<
    Scalar,
> {
    match find_read(l.props, name@) {
        Some(r) => Some(read_at(data, header_end + i * l.stride, r)),
        None => None,
    }
}

/// Every field of STG-Lite vertex `g` is the property of that name in the
/// record of vertex `i`.
pub open spec fn vertex4d_by_name(g: SpecGaussian4d, data: Seq<u8>, header_end: nat, l: LayoutView, i: int) -> bool {
    let v = |n: &str| vertex_prop(data, header_end, l, i, n);
    &&& g.position.len() == 3 && g.scale.len() == 3 && g.rotation.len() == 4
    &&& g.motion.len() == 9 && g.omega.len() == 4 && g.base_color.len() == 3
    &&& v("x") == Some(g.position[0]) && v("y") == Some(g.position[1]) && v("z") == Some(g.position[2])
    &&& v("opacity") == Some(g.opacity)
    &&& v("scale_0") == Some(g.scale[0]) && v("scale_1") == Some(g.scale[1]) && v("scale_2") == Some(g.scale[2])
    &&& v("rot_0") == Some(g.rotation[0]) && v("rot_1") == Some(g.rotation[1])
    &&& v("rot_2") == Some(g.rotation[2]) && v("rot_3") == Some(g.rotation[3])
    &&& v("motion_0") == Some(g.motion[0]) && v("motion_1") == Some(g.motion[1])
    &&& v("motion_2") == Some(g.motion[2]) && v("motion_3") == Some(g.motion[3])
    &&& v("motion_4") == Some(g.motion[4]) && v("motion_5") == Some(g.motion[5])
    &&& v("motion_6") == Some(g.motion[6]) && v("motion_7") == Some(g.motion[7])
    &&& v("motion_8") == Some(g.motion[8])
    &&& v("omega_0") == Some(g.omega[0]) && v("omega_1") == Some(g.omega[1])
    &&& v("omega_2") == Some(g.omega[2]) && v("omega_3") == Some(g.omega[3])
    &&& v("trbf_center") == Some(g.trbf_center) && v("trbf_scale") == Some(g.trbf_scale)
    &&& v("f_dc_0") == Some(g.base_color[0]) && v("f_dc_1") == Some(g.base_color[1])
    &&& v("f_dc_2") == Some(g.base_color[2])
}

/// Every field of 3DGS vertex `g` is the property of that name in the record
/// of vertex `i`; its 48 spherical-harmonics coefficients are the properties
/// `f_dc_0..2` and then `f_rest_0..44` of that record, `None` where absent.
pub open spec fn vertex3d_by_name(g: SpecGaussian3d, data: Seq<u8>, header_end: nat, l: LayoutView, i: int) -> bool {
    let v = |n: &str| vertex_prop(data, header_end, l, i, n);
    &&& g.position.len() == 3 && g.scale.len() == 3 && g.rotation.len() == 4 && g.sh.len() == 48
    &&& v("x") == Some(g.position[0]) && v("y") == Some(g.position[1]) && v("z") == Some(g.position[2])
    &&& v("opacity") == Some(g.opacity)
    &&& v("scale_0") == Some(g.scale[0]) && v("scale_1") == Some(g.scale[1]) && v("scale_2") == Some(g.scale[2])
    &&& v("rot_0") == Some(g.rotation[0]) && v("rot_1") == Some(g.rotation[1])
    &&& v("rot_2") == Some(g.rotation[2]) && v("rot_3") == Some(g.rotation[3])
    &&& v("f_dc_0") == g.sh[0] && v("f_dc_1") == g.sh[1] && v("f_dc_2") == g.sh[2]
    &&& forall|k: int| 0 <= k < 48 ==> #[trigger] g.sh[k] == vertex_prop_chars(data, header_end, l, i, sh_name(k))
}

/// The name of spherical-harmonics coefficient `k`: `f_dc_k` for the three
/// DC terms, then `f_rest_(k-3)`.
pub open spec fn sh_name(k: int) -> Seq<char> {
    if k < 3 {
        "f_dc_"@ + decimal(k as nat)
    } else {
        "f_rest_"@ + decimal((k - 3) as nat)
    }
}

/// The property named `name` (as characters) of vertex `i`, read from that
/// vertex's own record.
pub open spec fn vertex_prop_chars(data: Seq<u8>, header_end: nat, l: LayoutView, i: int, name: Seq<char>) -> Option<
    Scalar,
> {
    match find_read(l.props, name) {
        Some(r) => Some(read_at(data, header_end + i * l.stride, r)),
        None => None,
    }
}

proof fn lemma_sh_names()
    ensures
        forall|k: int| 0 <= k < 48 ==> (#[trigger] sh_fields()[k])@ == sh_name(k),
{
    reveal_with_fuel(decimal, 3);
    let shn = sh_fields();
    assert(shn[0]@ =~= sh_name(0)) by {
        reveal_strlit("f_dc_0");
        reveal_strlit("f_dc_");
    }
    assert(shn[1]@ =~= sh_name(1)) by {
        reveal_strlit("f_dc_1");
        reveal_strlit("f_dc_");
    }
    assert(shn[2]@ =~= sh_name(2)) by {
        reveal_strlit("f_dc_2");
        reveal_strlit("f_dc_");
    }
    assert(shn[3]@ =~= sh_name(3)) by {
        reveal_strlit("f_rest_0");
        reveal_strlit("f_rest_");
    }
    assert(shn[4]@ =~= sh_name(4)) by {
        reveal_strlit("f_rest_1");
        reveal_strlit("f_rest_");
    }
    assert(shn[5]@ =~= sh_name(5)) by {
        reveal_strlit("f_rest_2");
        reveal_strlit("f_rest_");
    }
    assert(shn[6]@ =~= sh_name(6)) by {
        reveal_strlit("f_rest_3");
        reveal_strlit("f_rest_");
    }
    assert(shn[7]@ =~= sh_name(7)) by {
        reveal_strlit("f_rest_4");
        reveal_strlit("f_rest_");
    }
    assert(shn[8]@ =~= sh_name(8)) by {
        reveal_strlit("f_rest_5");
        reveal_strlit("f_rest_");
    }
    assert(shn[9]@ =~= sh_name(9)) by {
        reveal_strlit("f_rest_6");
        reveal_strlit("f_rest_");
    }
    assert(shn[10]@ =~= sh_name(10)) by {
        reveal_strlit("f_rest_7");
        reveal_strlit("f_rest_");
    }
    assert(shn[11]@ =~= sh_name(11)) by {
        reveal_strlit("f_rest_8");
        reveal_strlit("f_rest_");
    }
    assert(shn[12]@ =~= sh_name(12)) by {
        reveal_strlit("f_rest_9");
        reveal_strlit("f_rest_");
    }
    assert(shn[13]@ =~= sh_name(13)) by {
        reveal_strlit("f_rest_10");
        reveal_strlit("f_rest_");
    }
    assert(shn[14]@ =~= sh_name(14)) by {
        reveal_strlit("f_rest_11");
        reveal_strlit("f_rest_");
    }
    assert(shn[15]@ =~= sh_name(15)) by {
        reveal_strlit("f_rest_12");
        reveal_strlit("f_rest_");
    }
    assert(shn[16]@ =~= sh_name(16)) by {
        reveal_strlit("f_rest_13");
        reveal_strlit("f_rest_");
    }
    assert(shn[17]@ =~= sh_name(17)) by {
        reveal_strlit("f_rest_14");
        reveal_strlit("f_rest_");
    }
    assert(shn[18]@ =~= sh_name(18)) by {
        reveal_strlit("f_rest_15");
        reveal_strlit("f_rest_");
    }
    assert(shn[19]@ =~= sh_name(19)) by {
        reveal_strlit("f_rest_16");
        reveal_strlit("f_rest_");
    }
    assert(shn[20]@ =~= sh_name(20)) by {
        reveal_strlit("f_rest_17");
        reveal_strlit("f_rest_");
    }
    assert(shn[21]@ =~= sh_name(21)) by {
        reveal_strlit("f_rest_18");
        reveal_strlit("f_rest_");
    }
    assert(shn[22]@ =~= sh_name(22)) by {
        reveal_strlit("f_rest_19");
        reveal_strlit("f_rest_");
    }
    assert(shn[23]@ =~= sh_name(23)) by {
        reveal_strlit("f_rest_20");
        reveal_strlit("f_rest_");
    }
    assert(shn[24]@ =~= sh_name(24)) by {
        reveal_strlit("f_rest_21");
        reveal_strlit("f_rest_");
    }
    assert(shn[25]@ =~= sh_name(25)) by {
        reveal_strlit("f_rest_22");
        reveal_strlit("f_rest_");
    }
    assert(shn[26]@ =~= sh_name(26)) by {
        reveal_strlit("f_rest_23");
        reveal_strlit("f_rest_");
    }
    assert(shn[27]@ =~= sh_name(27)) by {
        reveal_strlit("f_rest_24");
        reveal_strlit("f_rest_");
    }
    assert(shn[28]@ =~= sh_name(28)) by {
        reveal_strlit("f_rest_25");
        reveal_strlit("f_rest_");
    }
    assert(shn[29]@ =~= sh_name(29)) by {
        reveal_strlit("f_rest_26");
        reveal_strlit("f_rest_");
    }
    assert(shn[30]@ =~= sh_name(30)) by {
        reveal_strlit("f_rest_27");
        reveal_strlit("f_rest_");
    }
    assert(shn[31]@ =~= sh_name(31)) by {
        reveal_strlit("f_rest_28");
        reveal_strlit("f_rest_");
    }
    assert(shn[32]@ =~= sh_name(32)) by {
        reveal_strlit("f_rest_29");
        reveal_strlit("f_rest_");
    }
    assert(shn[33]@ =~= sh_name(33)) by {
        reveal_strlit("f_rest_30");
        reveal_strlit("f_rest_");
    }
    assert(shn[34]@ =~= sh_name(34)) by {
        reveal_strlit("f_rest_31");
        reveal_strlit("f_rest_");
    }
    assert(shn[35]@ =~= sh_name(35)) by {
        reveal_strlit("f_rest_32");
        reveal_strlit("f_rest_");
    }
    assert(shn[36]@ =~= sh_name(36)) by {
        reveal_strlit("f_rest_33");
        reveal_strlit("f_rest_");
    }
    assert(shn[37]@ =~= sh_name(37)) by {
        reveal_strlit("f_rest_34");
        reveal_strlit("f_rest_");
    }
    assert(shn[38]@ =~= sh_name(38)) by {
        reveal_strlit("f_rest_35");
        reveal_strlit("f_rest_");
    }
    assert(shn[39]@ =~= sh_name(39)) by {
        reveal_strlit("f_rest_36");
        reveal_strlit("f_rest_");
    }
    assert(shn[40]@ =~= sh_name(40)) by {
        reveal_strlit("f_rest_37");
        reveal_strlit("f_rest_");
    }
    assert(shn[41]@ =~= sh_name(41)) by {
        reveal_strlit("f_rest_38");
        reveal_strlit("f_rest_");
    }
    assert(shn[42]@ =~= sh_name(42)) by {
        reveal_strlit("f_rest_39");
        reveal_strlit("f_rest_");
    }
    assert(shn[43]@ =~= sh_name(43)) by {
        reveal_strlit("f_rest_40");
        reveal_strlit("f_rest_");
    }
    assert(shn[44]@ =~= sh_name(44)) by {
        reveal_strlit("f_rest_41");
        reveal_strlit("f_rest_");
    }
    assert(shn[45]@ =~= sh_name(45)) by {
        reveal_strlit("f_rest_42");
        reveal_strlit("f_rest_");
    }
    assert(shn[46]@ =~= sh_name(46)) by {
        reveal_strlit("f_rest_43");
        reveal_strlit("f_rest_");
    }
    assert(shn[47]@ =~= sh_name(47)) by {
        reveal_strlit("f_rest_44");
        reveal_strlit("f_rest_");
    }
}

proof fn lemma_none_missing(props: Seq<PropView>, names: Seq<&'static str>, i: int)
    requires
        0 <= i,
        first_missing_from(props, names, i) is None,
    ensures
        forall|j: int| i <= j < names.len() ==> find_read(props, (#[trigger] names[j])@) is Some,
    decreases names.len() - i,
{
    if i < names.len() {
        lemma_none_missing(props, names, i + 1);
    }
}

/// A loaded STG-Lite vertex is read by property name from its own record:
/// its position is `x`, `y`, `z`, its scale `scale_0..2`, its rotation
/// `rot_0..3`, its motion `motion_0..8`, its omega `omega_0..3`, its base
/// colour `f_dc_0..2`, and its opacity and temporal centre and scale the
/// properties so named, all of vertex `i`'s record.
pub proof fn lemma_4d_fields_by_name(data: Seq<u8>, header_end: nat, l: LayoutView, i: int)
    requires
        layout4d_spec(l) is Ok,
        body4d_spec(data, header_end, layout4d_spec(l)->Ok_0) is Ok,
        0 <= i < l.count,
    ensures
        vertex4d_by_name(body4d_spec(data, header_end, layout4d_spec(l)->Ok_0)->Ok_0[i], data, header_end, l, i),
{
    let names = required_4d_fields();
    lemma_none_missing(l.props, names, 0);
    let q = layout4d_spec(l)->Ok_0.required;
    assert(q == names.map_values(|n: &'static str| find_read(l.props, n@)->Some_0));
    assert forall|j: int| 0 <= j < 29 implies find_read(l.props, (#[trigger] names[j])@) == Some(q[j]) by {
        assert(find_read(l.props, names[j]@) is Some);
    }
    let g = body4d_spec(data, header_end, layout4d_spec(l)->Ok_0)->Ok_0[i];
    assert(g == gaussian4d_at(data, header_end + i * l.stride, layout4d_spec(l)->Ok_0));
    assert(find_read(l.props, names[0]@) == Some(q[0]));
    assert(find_read(l.props, names[1]@) == Some(q[1]));
    assert(find_read(l.props, names[2]@) == Some(q[2]));
    assert(find_read(l.props, names[3]@) == Some(q[3]));
    assert(find_read(l.props, names[4]@) == Some(q[4]));
    assert(find_read(l.props, names[5]@) == Some(q[5]));
    assert(find_read(l.props, names[6]@) == Some(q[6]));
    assert(find_read(l.props, names[7]@) == Some(q[7]));
    assert(find_read(l.props, names[8]@) == Some(q[8]));
    assert(find_read(l.props, names[9]@) == Some(q[9]));
    assert(find_read(l.props, names[10]@) == Some(q[10]));
    assert(find_read(l.props, names[11]@) == Some(q[11]));
    assert(find_read(l.props, names[12]@) == Some(q[12]));
    assert(find_read(l.props, names[13]@) == Some(q[13]));
    assert(find_read(l.props, names[14]@) == Some(q[14]));
    assert(find_read(l.props, names[15]@) == Some(q[15]));
    assert(find_read(l.props, names[16]@) == Some(q[16]));
    assert(find_read(l.props, names[17]@) == Some(q[17]));
    assert(find_read(l.props, names[18]@) == Some(q[18]));
    assert(find_read(l.props, names[19]@) == Some(q[19]));
    assert(find_read(l.props, names[20]@) == Some(q[20]));
    assert(find_read(l.props, names[21]@) == Some(q[21]));
    assert(find_read(l.props, names[22]@) == Some(q[22]));
    assert(find_read(l.props, names[23]@) == Some(q[23]));
    assert(find_read(l.props, names[24]@) == Some(q[24]));
    assert(find_read(l.props, names[25]@) == Some(q[25]));
    assert(find_read(l.props, names[26]@) == Some(q[26]));
    assert(find_read(l.props, names[27]@) == Some(q[27]));
    assert(find_read(l.props, names[28]@) == Some(q[28]));
}

/// A loaded 3DGS vertex is read by property name from its own record: its
/// position is `x`, `y`, `z`, its opacity `opacity`, its scale `scale_0..2`,
/// its rotation `rot_0..3`, and its spherical harmonics `f_dc_0..2` then
/// `f_rest_0..44`, all of vertex `i`'s record; so changing another vertex's
/// record changes nothing of vertex `i`.
pub proof fn lemma_3d_fields_by_name(data: Seq<u8>, header_end: nat, l: LayoutView, i: int)
    requires
        layout3d_spec(l) is Ok,
        body3d_spec(data, header_end, layout3d_spec(l)->Ok_0) is Ok,
        0 <= i < l.count,
    ensures
        vertex3d_by_name(body3d_spec(data, header_end, layout3d_spec(l)->Ok_0)->Ok_0[i], data, header_end, l, i),
{
    let names = required_3d_fields();
    lemma_none_missing(l.props, names, 0);
    let l3 = layout3d_spec(l)->Ok_0;
    let q = l3.required;
    assert(q == names.map_values(|n: &'static str| find_read(l.props, n@)->Some_0));
    assert forall|j: int| 0 <= j < 11 implies find_read(l.props, (#[trigger] names[j])@) == Some(q[j]) by {
        assert(find_read(l.props, names[j]@) is Some);
    }
    let g = body3d_spec(data, header_end, l3)->Ok_0[i];
    let base = header_end + i * l.stride;
    assert(g == gaussian3d_at(data, base, l3));
    assert(find_read(l.props, names[0]@) == Some(q[0]));
    assert(find_read(l.props, names[1]@) == Some(q[1]));
    assert(find_read(l.props, names[2]@) == Some(q[2]));
    assert(find_read(l.props, names[3]@) == Some(q[3]));
    assert(find_read(l.props, names[4]@) == Some(q[4]));
    assert(find_read(l.props, names[5]@) == Some(q[5]));
    assert(find_read(l.props, names[6]@) == Some(q[6]));
    assert(find_read(l.props, names[7]@) == Some(q[7]));
    assert(find_read(l.props, names[8]@) == Some(q[8]));
    assert(find_read(l.props, names[9]@) == Some(q[9]));
    assert(find_read(l.props, names[10]@) == Some(q[10]));
    let shn = sh_fields();
    lemma_sh_names();
    assert forall|k: int| 0 <= k < 48 implies #[trigger] g.sh[k] == vertex_prop_chars(data, header_end, l, i, sh_name(k)) by {
        assert(l3.sh[k] == find_read(l.props, shn[k]@));
        assert(shn[k]@ == sh_name(k));
    }
    assert(g.sh[0] == vertex_prop(data, header_end, l, i, shn[0]));
    assert(g.sh[1] == vertex_prop(data, header_end, l, i, shn[1]));
    assert(g.sh[2] == vertex_prop(data, header_end, l, i, shn[2]));
}

} // verus!
