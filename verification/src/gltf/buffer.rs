//! The binary buffer of a glTF file, its buffer views and accessors, and
//! their JSON text.
use vstd::prelude::*;
use vstd::string::StringExecFns;
use crate::bytes::{F32Bits, spec_u16_le, spec_u32_le};
use crate::text::{decimal, spec_decimal};
use super::add_and_get_index;

verus! {

// ---- little-endian encoding ------------------------------------------------

/// The two little-endian bytes of `x`.
pub open spec fn spec_u16_bytes(x: u16) -> Seq<u8> {
    seq![(x % 256) as u8, (x / 256) as u8]
}

/// The four little-endian bytes of `x`.
pub open spec fn spec_u32_bytes(x: u32) -> Seq<u8> {
    seq![
        (x % 256) as u8,
        ((x / 256) % 256) as u8,
        ((x / 0x1_0000) % 256) as u8,
        (x / 0x100_0000) as u8,
    ]
}

/// The little-endian bytes of each float's bits, one after another.
pub open spec fn spec_words_bytes(s: Seq<F32Bits>) -> Seq<u8>
    decreases s.len(),
{
    if s.len() == 0 {
        Seq::empty()
    } else {
        spec_words_bytes(s.drop_last()) + spec_u32_bytes(s.last().0)
    }
}

proof fn lemma_words_bytes_len(s: Seq<F32Bits>)
    ensures
        spec_words_bytes(s).len() == 4 * s.len(),
    decreases s.len(),
{
    if s.len() > 0 {
        lemma_words_bytes_len(s.drop_last());
    }
}

/// Reading back the two bytes written for `x` gives `x`.
pub proof fn lemma_u16_bytes_round_trip(x: u16)
    ensures
        spec_u16_le(spec_u16_bytes(x), 0) == x,
{
    let b = spec_u16_bytes(x);
    assert(b[0] == x % 256 && b[1] == x / 256);
    assert(x % 256 + (x / 256) * 256 == x) by (nonlinear_arith);
}

/// Reading back the four bytes written for `x` gives `x`.
pub proof fn lemma_u32_bytes_round_trip(x: u32)
    ensures
        spec_u32_le(spec_u32_bytes(x), 0) == x,
{
    let b = spec_u32_bytes(x);
    let xi = x as int;
    let q1 = xi / 256;
    let q2 = xi / 0x1_0000;
    let q3 = xi / 0x100_0000;
    vstd::arithmetic::div_mod::lemma_fundamental_div_mod(xi, 256);
    vstd::arithmetic::div_mod::lemma_fundamental_div_mod(q1, 256);
    vstd::arithmetic::div_mod::lemma_fundamental_div_mod(q2, 256);
    vstd::arithmetic::div_mod::lemma_div_denominator(xi, 256, 256);
    vstd::arithmetic::div_mod::lemma_div_denominator(xi, 0x1_0000, 256);
    assert(b[0] == xi % 256 && b[1] == q1 % 256 && b[2] == q2 % 256 && b[3] == q3);
}

fn push_u16_le(out: &mut Vec<u8>, x: u16)
    ensures
        final(out)@ == old(out)@ + spec_u16_bytes(x),
{
    out.push((x % 256) as u8);
    out.push((x / 256) as u8);
    assert(final(out)@ =~= old(out)@ + spec_u16_bytes(x));
}

fn push_u32_le(out: &mut Vec<u8>, x: u32)
    ensures
        final(out)@ == old(out)@ + spec_u32_bytes(x),
{
    out.push((x % 256) as u8);
    out.push(((x / 256) % 256) as u8);
    out.push(((x / 0x1_0000) % 256) as u8);
    out.push((x / 0x100_0000) as u8);
    assert(final(out)@ =~= old(out)@ + spec_u32_bytes(x));
}

fn push_words_le(out: &mut Vec<u8>, words: &[F32Bits])
    ensures
        final(out)@ == old(out)@ + spec_words_bytes(words@),
{
    let n = words.len();
    let mut i: usize = 0;
    while i < n
        invariant
            n == words@.len(),
            0 <= i <= n,
            out@ == old(out)@ + spec_words_bytes(words@.take(i as int)),
        decreases n - i,
    {
        proof {
            assert(words@.take(i + 1).drop_last() =~= words@.take(i as int));
        }
        push_u32_le(out, words[i].0);
        i += 1;
        assert(out@ =~= old(out)@ + spec_words_bytes(words@.take(i as int)));
    }
    assert(words@.take(n as int) =~= words@);
}

// ---- glTF enumerations -----------------------------------------------------

/// What a buffer view holds, by its glTF `target` code.
#[derive(Copy, Clone, Debug, PartialEq, Eq, Structural)]
pub enum BufferViewTarget {
    ArrayBuffer,
    ElementArrayBuffer,
}

impl BufferViewTarget {
    pub open spec fn spec_value(self) -> nat {
        match self {
            BufferViewTarget::ArrayBuffer => 34962,
            BufferViewTarget::ElementArrayBuffer => 34963,
        }
    }

    /// The glTF code of the target.
    pub fn value(&self) -> (res: u64)
        ensures
            res == self.spec_value(),
    {
        match *self {
            BufferViewTarget::ArrayBuffer => 34962,
            BufferViewTarget::ElementArrayBuffer => 34963,
        }
    }
}

/// The component type of an accessor, by its glTF code.
#[derive(Copy, Clone, Debug, PartialEq, Eq, Structural)]
pub enum AccessorComponentType {
    SignedByte,
    UnsignedByte,
    SignedShort,
    UnsignedShort,
    UnsignedInt,
    Float,
}

impl AccessorComponentType {
    pub open spec fn spec_value(self) -> nat {
        match self {
            AccessorComponentType::SignedByte => 5120,
            AccessorComponentType::UnsignedByte => 5121,
            AccessorComponentType::SignedShort => 5122,
            AccessorComponentType::UnsignedShort => 5123,
            AccessorComponentType::UnsignedInt => 5125,
            AccessorComponentType::Float => 5126,
        }
    }

    /// The glTF code of the component type.
    pub fn value(&self) -> (res: u64)
        ensures
            res == self.spec_value(),
    {
        match *self {
            AccessorComponentType::SignedByte => 5120,
            AccessorComponentType::UnsignedByte => 5121,
            AccessorComponentType::SignedShort => 5122,
            AccessorComponentType::UnsignedShort => 5123,
            AccessorComponentType::UnsignedInt => 5125,
            AccessorComponentType::Float => 5126,
        }
    }
}

/// The shape of an accessor's elements.
#[derive(Copy, Clone, Debug, PartialEq, Eq, Structural)]
pub enum AccessorDataType {
    Scalar,
    Vec2,
    Vec3,
    Vec4,
    Mat2,
    Mat3,
    Mat4,
}

impl AccessorDataType {
    pub open spec fn spec_str(self) -> Seq<char> {
        match self {
            AccessorDataType::Scalar => "SCALAR"@,
            AccessorDataType::Vec2 => "VEC2"@,
            AccessorDataType::Vec3 => "VEC3"@,
            AccessorDataType::Vec4 => "VEC4"@,
            AccessorDataType::Mat2 => "MAT2"@,
            AccessorDataType::Mat3 => "MAT3"@,
            AccessorDataType::Mat4 => "MAT4"@,
        }
    }

    /// The glTF name of the element shape.
    pub fn as_str(&self) -> (res: &'static str)
        ensures
            res@ == self.spec_str(),
    {
        match *self {
            AccessorDataType::Scalar => "SCALAR",
            AccessorDataType::Vec2 => "VEC2",
            AccessorDataType::Vec3 => "VEC3",
            AccessorDataType::Vec4 => "VEC4",
            AccessorDataType::Mat2 => "MAT2",
            AccessorDataType::Mat3 => "MAT3",
            AccessorDataType::Mat4 => "MAT4",
        }
    }
}

// ---- element types ---------------------------------------------------------

/// An element type that can be stored in the buffer.
pub trait BufferType: Sized {
    spec fn spec_component_ty() -> AccessorComponentType;

    spec fn spec_data_ty() -> AccessorDataType;

    spec fn spec_stride() -> Option<usize>;

    spec fn spec_size() -> nat;

    /// The bytes that represent the element in the buffer.
    spec fn spec_to_bytes(&self) -> Seq<u8>;

    proof fn lemma_size(&self)
        ensures
            self.spec_to_bytes().len() == Self::spec_size(),
    ;

    fn component_ty() -> (res: AccessorComponentType)
        ensures
            res == Self::spec_component_ty(),
    ;

    fn data_ty() -> (res: AccessorDataType)
        ensures
            res == Self::spec_data_ty(),
    ;

    fn to_bytes(&self) -> (res: Vec<u8>)
        ensures
            res@ == self.spec_to_bytes(),
    ;

    fn stride() -> (res: Option<usize>)
        ensures
            res == Self::spec_stride(),
    ;
}

/// An element type with an order, extremes and a text form, for the bounds
/// of an accessor.
pub trait BufferTypeMinMax: BufferType {
    /// The least value of the type.
    spec fn spec_min_value() -> Self;

    /// The greatest value of the type.
    spec fn spec_max_value() -> Self;

    /// Component-wise `<=`.
    spec fn spec_le(&self, other: &Self) -> bool;

    spec fn spec_data_max(&self, other: &Self) -> Self;

    spec fn spec_data_min(&self, other: &Self) -> Self;

    spec fn spec_write_value(&self) -> Seq<char>;

    proof fn lemma_order(a: &Self, b: &Self, c: &Self)
        ensures
            a.spec_le(&a.spec_data_max(b)),
            b.spec_le(&a.spec_data_max(b)),
            a.spec_data_min(b).spec_le(a),
            a.spec_data_min(b).spec_le(b),
            a.spec_le(b) && b.spec_le(c) ==> a.spec_le(c),
    ;

    fn min_value() -> (res: Self)
        ensures
            res == Self::spec_min_value(),
    ;

    fn max_value() -> (res: Self)
        ensures
            res == Self::spec_max_value(),
    ;

    fn data_max(&self, other: &Self) -> (res: Self)
        ensures
            res == self.spec_data_max(other),
    ;

    fn data_min(&self, other: &Self) -> (res: Self)
        ensures
            res == self.spec_data_min(other),
    ;

    fn write_value(&self) -> (res: String)
        ensures
            res@ == self.spec_write_value(),
    ;
}

/// The text `" [ " + items + " ]"` used for accessor bounds.
pub open spec fn spec_bracketed(items: Seq<char>) -> Seq<char> {
    " [ "@ + items + " ]"@
}

fn bracketed(items: String) -> (res: String)
    ensures
        res@ == spec_bracketed(items@),
{
    let mut s = String::from_str(" [ ");
    s.append(items.as_str());
    s.append(" ]");
    s
}

impl BufferType for u8 {
    open spec fn spec_component_ty() -> AccessorComponentType {
        AccessorComponentType::UnsignedByte
    }

    open spec fn spec_data_ty() -> AccessorDataType {
        AccessorDataType::Scalar
    }

    open spec fn spec_stride() -> Option<usize> {
        None
    }

    open spec fn spec_size() -> nat {
        1
    }

    open spec fn spec_to_bytes(&self) -> Seq<u8> {
        seq![*self]
    }

    proof fn lemma_size(&self) {
    }

    fn component_ty() -> (res: AccessorComponentType) {
        AccessorComponentType::UnsignedByte
    }

    fn data_ty() -> (res: AccessorDataType) {
        AccessorDataType::Scalar
    }

    fn to_bytes(&self) -> (res: Vec<u8>) {
        let mut out = Vec::new();
        out.push(*self);
        assert(out@ =~= seq![*self]);
        out
    }

    fn stride() -> (res: Option<usize>) {
        None
    }
}

impl BufferTypeMinMax for u8 {
    open spec fn spec_min_value() -> Self {
        0
    }

    open spec fn spec_max_value() -> Self {
        0xff
    }

    open spec fn spec_le(&self, other: &Self) -> bool {
        *self <= *other
    }

    open spec fn spec_data_max(&self, other: &Self) -> Self {
        if *self >= *other { *self } else { *other }
    }

    open spec fn spec_data_min(&self, other: &Self) -> Self {
        if *self <= *other { *self } else { *other }
    }

    open spec fn spec_write_value(&self) -> Seq<char> {
        spec_bracketed(spec_decimal(*self as nat))
    }

    proof fn lemma_order(a: &Self, b: &Self, c: &Self) {
    }

    fn min_value() -> (res: Self) {
        0
    }

    fn max_value() -> (res: Self) {
        0xff
    }

    fn data_max(&self, other: &Self) -> (res: Self) {
        if *self >= *other { *self } else { *other }
    }

    fn data_min(&self, other: &Self) -> (res: Self) {
        if *self <= *other { *self } else { *other }
    }

    fn write_value(&self) -> (res: String) {
        bracketed(decimal(*self as u64))
    }
}

impl BufferType for u16 {
    open spec fn spec_component_ty() -> AccessorComponentType {
        AccessorComponentType::UnsignedShort
    }

    open spec fn spec_data_ty() -> AccessorDataType {
        AccessorDataType::Scalar
    }

    open spec fn spec_stride() -> Option<usize> {
        None
    }

    open spec fn spec_size() -> nat {
        2
    }

    open spec fn spec_to_bytes(&self) -> Seq<u8> {
        spec_u16_bytes(*self)
    }

    proof fn lemma_size(&self) {
    }

    fn component_ty() -> (res: AccessorComponentType) {
        AccessorComponentType::UnsignedShort
    }

    fn data_ty() -> (res: AccessorDataType) {
        AccessorDataType::Scalar
    }

    fn to_bytes(&self) -> (res: Vec<u8>) {
        let mut out = Vec::new();
        push_u16_le(&mut out, *self);
        assert(out@ =~= spec_u16_bytes(*self));
        out
    }

    fn stride() -> (res: Option<usize>) {
        None
    }
}

impl BufferTypeMinMax for u16 {
    open spec fn spec_min_value() -> Self {
        0
    }

    open spec fn spec_max_value() -> Self {
        0xffff
    }

    open spec fn spec_le(&self, other: &Self) -> bool {
        *self <= *other
    }

    open spec fn spec_data_max(&self, other: &Self) -> Self {
        if *self >= *other { *self } else { *other }
    }

    open spec fn spec_data_min(&self, other: &Self) -> Self {
        if *self <= *other { *self } else { *other }
    }

    open spec fn spec_write_value(&self) -> Seq<char> {
        spec_bracketed(spec_decimal(*self as nat))
    }

    proof fn lemma_order(a: &Self, b: &Self, c: &Self) {
    }

    fn min_value() -> (res: Self) {
        0
    }

    fn max_value() -> (res: Self) {
        0xffff
    }

    fn data_max(&self, other: &Self) -> (res: Self) {
        if *self >= *other { *self } else { *other }
    }

    fn data_min(&self, other: &Self) -> (res: Self) {
        if *self <= *other { *self } else { *other }
    }

    fn write_value(&self) -> (res: String) {
        bracketed(decimal(*self as u64))
    }
}

impl BufferType for u32 {
    open spec fn spec_component_ty() -> AccessorComponentType {
        AccessorComponentType::UnsignedInt
    }

    open spec fn spec_data_ty() -> AccessorDataType {
        AccessorDataType::Scalar
    }

    open spec fn spec_stride() -> Option<usize> {
        None
    }

    open spec fn spec_size() -> nat {
        4
    }

    open spec fn spec_to_bytes(&self) -> Seq<u8> {
        spec_u32_bytes(*self)
    }

    proof fn lemma_size(&self) {
    }

    fn component_ty() -> (res: AccessorComponentType) {
        AccessorComponentType::UnsignedInt
    }

    fn data_ty() -> (res: AccessorDataType) {
        AccessorDataType::Scalar
    }

    fn to_bytes(&self) -> (res: Vec<u8>) {
        let mut out = Vec::new();
        push_u32_le(&mut out, *self);
        assert(out@ =~= spec_u32_bytes(*self));
        out
    }

    fn stride() -> (res: Option<usize>) {
        None
    }
}

impl BufferTypeMinMax for u32 {
    open spec fn spec_min_value() -> Self {
        0
    }

    open spec fn spec_max_value() -> Self {
        0xffff_ffff
    }

    open spec fn spec_le(&self, other: &Self) -> bool {
        *self <= *other
    }

    open spec fn spec_data_max(&self, other: &Self) -> Self {
        if *self >= *other { *self } else { *other }
    }

    open spec fn spec_data_min(&self, other: &Self) -> Self {
        if *self <= *other { *self } else { *other }
    }

    open spec fn spec_write_value(&self) -> Seq<char> {
        spec_bracketed(spec_decimal(*self as nat))
    }

    proof fn lemma_order(a: &Self, b: &Self, c: &Self) {
    }

    fn min_value() -> (res: Self) {
        0
    }

    fn max_value() -> (res: Self) {
        0xffff_ffff
    }

    fn data_max(&self, other: &Self) -> (res: Self) {
        if *self >= *other { *self } else { *other }
    }

    fn data_min(&self, other: &Self) -> (res: Self) {
        if *self <= *other { *self } else { *other }
    }

    fn write_value(&self) -> (res: String) {
        bracketed(decimal(*self as u64))
    }
}

impl BufferType for F32Bits {
    open spec fn spec_component_ty() -> AccessorComponentType {
        AccessorComponentType::Float
    }

    open spec fn spec_data_ty() -> AccessorDataType {
        AccessorDataType::Scalar
    }

    open spec fn spec_stride() -> Option<usize> {
        None
    }

    open spec fn spec_size() -> nat {
        4
    }

    open spec fn spec_to_bytes(&self) -> Seq<u8> {
        spec_u32_bytes(self.0)
    }

    proof fn lemma_size(&self) {
    }

    fn component_ty() -> (res: AccessorComponentType) {
        AccessorComponentType::Float
    }

    fn data_ty() -> (res: AccessorDataType) {
        AccessorDataType::Scalar
    }

    fn to_bytes(&self) -> (res: Vec<u8>) {
        let mut out = Vec::new();
        push_u32_le(&mut out, self.0);
        assert(out@ =~= spec_u32_bytes(self.0));
        out
    }

    fn stride() -> (res: Option<usize>) {
        None
    }
}

impl BufferType for [u8; 4] {
    open spec fn spec_component_ty() -> AccessorComponentType {
        AccessorComponentType::UnsignedByte
    }

    open spec fn spec_data_ty() -> AccessorDataType {
        AccessorDataType::Vec4
    }

    open spec fn spec_stride() -> Option<usize> {
        Some(4)
    }

    open spec fn spec_size() -> nat {
        4
    }

    open spec fn spec_to_bytes(&self) -> Seq<u8> {
        self@
    }

    proof fn lemma_size(&self) {
    }

    fn component_ty() -> (res: AccessorComponentType) {
        AccessorComponentType::UnsignedByte
    }

    fn data_ty() -> (res: AccessorDataType) {
        AccessorDataType::Vec4
    }

    fn to_bytes(&self) -> (res: Vec<u8>) {
        let mut out = Vec::new();
        out.push(self[0]);
        out.push(self[1]);
        out.push(self[2]);
        out.push(self[3]);
        assert(out@ =~= self@);
        out
    }

    fn stride() -> (res: Option<usize>) {
        Some(4)
    }
}

/// Component-wise order on four bytes.
pub open spec fn spec_bytes4_le(a: [u8; 4], b: [u8; 4]) -> bool {
    a[0] <= b[0] && a[1] <= b[1] && a[2] <= b[2] && a[3] <= b[3]
}

pub open spec fn spec_max_u8(a: u8, b: u8) -> u8 {
    if a >= b { a } else { b }
}

pub open spec fn spec_min_u8(a: u8, b: u8) -> u8 {
    if a <= b { a } else { b }
}

impl BufferTypeMinMax for [u8; 4] {
    open spec fn spec_min_value() -> Self {
        [0, 0, 0, 0]
    }

    open spec fn spec_max_value() -> Self {
        [0xff, 0xff, 0xff, 0xff]
    }

    open spec fn spec_le(&self, other: &Self) -> bool {
        spec_bytes4_le(*self, *other)
    }

    open spec fn spec_data_max(&self, other: &Self) -> Self {
        [
            spec_max_u8(self[0], other[0]),
            spec_max_u8(self[1], other[1]),
            spec_max_u8(self[2], other[2]),
            spec_max_u8(self[3], other[3]),
        ]
    }

    open spec fn spec_data_min(&self, other: &Self) -> Self {
        [
            spec_min_u8(self[0], other[0]),
            spec_min_u8(self[1], other[1]),
            spec_min_u8(self[2], other[2]),
            spec_min_u8(self[3], other[3]),
        ]
    }

    open spec fn spec_write_value(&self) -> Seq<char> {
        spec_bracketed(
            spec_decimal(self[0] as nat) + ", "@ + spec_decimal(self[1] as nat) + ", "@
                + spec_decimal(self[2] as nat) + ", "@ + spec_decimal(self[3] as nat),
        )
    }

    proof fn lemma_order(a: &Self, b: &Self, c: &Self) {
    }

    fn min_value() -> (res: Self) {
        [0, 0, 0, 0]
    }

    fn max_value() -> (res: Self) {
        [0xff, 0xff, 0xff, 0xff]
    }

    fn data_max(&self, other: &Self) -> (res: Self) {
        let res = [
            self[0].data_max(&other[0]),
            self[1].data_max(&other[1]),
            self[2].data_max(&other[2]),
            self[3].data_max(&other[3]),
        ];
        res
    }

    fn data_min(&self, other: &Self) -> (res: Self) {
        let res = [
            self[0].data_min(&other[0]),
            self[1].data_min(&other[1]),
            self[2].data_min(&other[2]),
            self[3].data_min(&other[3]),
        ];
        res
    }

    fn write_value(&self) -> (res: String) {
        let mut s = decimal(self[0] as u64);
        s.append(", ");
        s.append(decimal(self[1] as u64).as_str());
        s.append(", ");
        s.append(decimal(self[2] as u64).as_str());
        s.append(", ");
        s.append(decimal(self[3] as u64).as_str());
        bracketed(s)
    }
}

impl BufferType for [F32Bits; 2] {
    open spec fn spec_component_ty() -> AccessorComponentType {
        AccessorComponentType::Float
    }

    open spec fn spec_data_ty() -> AccessorDataType {
        AccessorDataType::Vec2
    }

    open spec fn spec_stride() -> Option<usize> {
        Some(8)
    }

    open spec fn spec_size() -> nat {
        8
    }

    open spec fn spec_to_bytes(&self) -> Seq<u8> {
        spec_words_bytes(self@)
    }

    proof fn lemma_size(&self) {
        lemma_words_bytes_len(self@);
    }

    fn component_ty() -> (res: AccessorComponentType) {
        AccessorComponentType::Float
    }

    fn data_ty() -> (res: AccessorDataType) {
        AccessorDataType::Vec2
    }

    fn to_bytes(&self) -> (res: Vec<u8>) {
        let mut out = Vec::new();
        push_words_le(&mut out, self.as_slice());
        assert(out@ =~= spec_words_bytes(self@));
        out
    }

    fn stride() -> (res: Option<usize>) {
        Some(8)
    }
}

impl BufferType for [F32Bits; 3] {
    open spec fn spec_component_ty() -> AccessorComponentType {
        AccessorComponentType::Float
    }

    open spec fn spec_data_ty() -> AccessorDataType {
        AccessorDataType::Vec3
    }

    open spec fn spec_stride() -> Option<usize> {
        Some(12)
    }

    open spec fn spec_size() -> nat {
        12
    }

    open spec fn spec_to_bytes(&self) -> Seq<u8> {
        spec_words_bytes(self@)
    }

    proof fn lemma_size(&self) {
        lemma_words_bytes_len(self@);
    }

    fn component_ty() -> (res: AccessorComponentType) {
        AccessorComponentType::Float
    }

    fn data_ty() -> (res: AccessorDataType) {
        AccessorDataType::Vec3
    }

    fn to_bytes(&self) -> (res: Vec<u8>) {
        let mut out = Vec::new();
        push_words_le(&mut out, self.as_slice());
        assert(out@ =~= spec_words_bytes(self@));
        out
    }

    fn stride() -> (res: Option<usize>) {
        Some(12)
    }
}

impl BufferType for [F32Bits; 4] {
    open spec fn spec_component_ty() -> AccessorComponentType {
        AccessorComponentType::Float
    }

    open spec fn spec_data_ty() -> AccessorDataType {
        AccessorDataType::Vec4
    }

    open spec fn spec_stride() -> Option<usize> {
        Some(16)
    }

    open spec fn spec_size() -> nat {
        16
    }

    open spec fn spec_to_bytes(&self) -> Seq<u8> {
        spec_words_bytes(self@)
    }

    proof fn lemma_size(&self) {
        lemma_words_bytes_len(self@);
    }

    fn component_ty() -> (res: AccessorComponentType) {
        AccessorComponentType::Float
    }

    fn data_ty() -> (res: AccessorDataType) {
        AccessorDataType::Vec4
    }

    fn to_bytes(&self) -> (res: Vec<u8>) {
        let mut out = Vec::new();
        push_words_le(&mut out, self.as_slice());
        assert(out@ =~= spec_words_bytes(self@));
        out
    }

    fn stride() -> (res: Option<usize>) {
        Some(16)
    }
}

/// The bits of a `glam::Vec3`'s components, in x, y, z order.
#[derive(Copy, Clone, Debug)]
pub struct Vec3Bits(pub [F32Bits; 3]);

/// The bits of a `glam::Vec4`'s components, in x, y, z, w order.
#[derive(Copy, Clone, Debug)]
pub struct Vec4Bits(pub [F32Bits; 4]);

/// The bits of a `glam::Mat4`'s entries, column after column.
#[derive(Copy, Clone, Debug)]
pub struct Mat4Bits(pub [F32Bits; 16]);

impl BufferType for Vec3Bits {
    open spec fn spec_component_ty() -> AccessorComponentType {
        AccessorComponentType::Float
    }

    open spec fn spec_data_ty() -> AccessorDataType {
        AccessorDataType::Vec3
    }

    open spec fn spec_stride() -> Option<usize> {
        None
    }

    open spec fn spec_size() -> nat {
        12
    }

    open spec fn spec_to_bytes(&self) -> Seq<u8> {
        spec_words_bytes(self.0@)
    }

    proof fn lemma_size(&self) {
        lemma_words_bytes_len(self.0@);
    }

    fn component_ty() -> (res: AccessorComponentType) {
        AccessorComponentType::Float
    }

    fn data_ty() -> (res: AccessorDataType) {
        AccessorDataType::Vec3
    }

    fn to_bytes(&self) -> (res: Vec<u8>) {
        let mut out = Vec::new();
        push_words_le(&mut out, self.0.as_slice());
        assert(out@ =~= spec_words_bytes(self.0@));
        out
    }

    fn stride() -> (res: Option<usize>) {
        None
    }
}

impl BufferType for Vec4Bits {
    open spec fn spec_component_ty() -> AccessorComponentType {
        AccessorComponentType::Float
    }

    open spec fn spec_data_ty() -> AccessorDataType {
        AccessorDataType::Vec4
    }

    open spec fn spec_stride() -> Option<usize> {
        None
    }

    open spec fn spec_size() -> nat {
        16
    }

    open spec fn spec_to_bytes(&self) -> Seq<u8> {
        spec_words_bytes(self.0@)
    }

    proof fn lemma_size(&self) {
        lemma_words_bytes_len(self.0@);
    }

    fn component_ty() -> (res: AccessorComponentType) {
        AccessorComponentType::Float
    }

    fn data_ty() -> (res: AccessorDataType) {
        AccessorDataType::Vec4
    }

    fn to_bytes(&self) -> (res: Vec<u8>) {
        let mut out = Vec::new();
        push_words_le(&mut out, self.0.as_slice());
        assert(out@ =~= spec_words_bytes(self.0@));
        out
    }

    fn stride() -> (res: Option<usize>) {
        None
    }
}

impl BufferType for Mat4Bits {
    open spec fn spec_component_ty() -> AccessorComponentType {
        AccessorComponentType::Float
    }

    open spec fn spec_data_ty() -> AccessorDataType {
        AccessorDataType::Mat4
    }

    open spec fn spec_stride() -> Option<usize> {
        None
    }

    open spec fn spec_size() -> nat {
        64
    }

    open spec fn spec_to_bytes(&self) -> Seq<u8> {
        spec_words_bytes(self.0@)
    }

    proof fn lemma_size(&self) {
        lemma_words_bytes_len(self.0@);
    }

    fn component_ty() -> (res: AccessorComponentType) {
        AccessorComponentType::Float
    }

    fn data_ty() -> (res: AccessorDataType) {
        AccessorDataType::Mat4
    }

    fn to_bytes(&self) -> (res: Vec<u8>) {
        let mut out = Vec::new();
        push_words_le(&mut out, self.0.as_slice());
        assert(out@ =~= spec_words_bytes(self.0@));
        out
    }

    fn stride() -> (res: Option<usize>) {
        None
    }
}

// ---- bounds -----------------------------------------------------------------

/// The least and greatest values of some data.
pub struct MinMax<T> {
    pub min: T,
    pub max: T,
}

/// The greatest of `s` under `data_max`, starting from the type's least value.
pub open spec fn spec_fold_max<T: BufferTypeMinMax>(s: Seq<T>) -> T
    decreases s.len(),
{
    if s.len() == 0 {
        T::spec_min_value()
    } else {
        s.last().spec_data_max(&spec_fold_max(s.drop_last()))
    }
}

/// The least of `s` under `data_min`, starting from the type's greatest value.
pub open spec fn spec_fold_min<T: BufferTypeMinMax>(s: Seq<T>) -> T
    decreases s.len(),
{
    if s.len() == 0 {
        T::spec_max_value()
    } else {
        s.last().spec_data_min(&spec_fold_min(s.drop_last()))
    }
}

/// The bounds that [`BufferTypeEx::find_min_max`] finds lie below and above
/// every element of the data.
pub proof fn lemma_fold_bounds<T: BufferTypeMinMax>(s: Seq<T>)
    ensures
        forall|i: int| 0 <= i < s.len() ==> #[trigger] s[i].spec_le(&spec_fold_max(s)),
        forall|i: int| 0 <= i < s.len() ==> spec_fold_min(s).spec_le(#[trigger] &s[i]),
    decreases s.len(),
{
    if s.len() > 0 {
        let p = s.drop_last();
        lemma_fold_bounds(p);
        let mx = spec_fold_max(s);
        let mn = spec_fold_min(s);
        T::lemma_order(&s.last(), &spec_fold_max(p), &s.last());
        T::lemma_order(&s.last(), &spec_fold_min(p), &s.last());
        assert forall|i: int| 0 <= i < s.len() implies #[trigger] s[i].spec_le(&mx) by {
            if i < s.len() - 1 {
                assert(p[i] == s[i]);
                T::lemma_order(&s[i], &spec_fold_max(p), &mx);
            }
        }
        assert forall|i: int| 0 <= i < s.len() implies mn.spec_le(#[trigger] &s[i]) by {
            if i < s.len() - 1 {
                assert(p[i] == s[i]);
                T::lemma_order(&mn, &spec_fold_min(p), &s[i]);
            }
        }
    }
}

/// Finding the bounds of a slice of elements.
pub trait BufferTypeEx: Sized {
    spec fn spec_find_min_max(data: Seq<Self>) -> (Self, Self);

    fn find_min_max(data: &[Self]) -> (res: (Self, Self))
        ensures
            res == Self::spec_find_min_max(data@),
    ;
}

impl<T: BufferTypeMinMax> BufferTypeEx for T {
    open spec fn spec_find_min_max(data: Seq<Self>) -> (Self, Self) {
        (spec_fold_min(data), spec_fold_max(data))
    }

    fn find_min_max(data: &[Self]) -> (res: (Self, Self)) {
        let mut max = T::min_value();
        let mut min = T::max_value();
        let n = data.len();
        let mut i: usize = 0;
        while i < n
            invariant
                n == data@.len(),
                0 <= i <= n,
                max == spec_fold_max(data@.take(i as int)),
                min == spec_fold_min(data@.take(i as int)),
            decreases n - i,
        {
            proof {
                assert(data@.take(i + 1).drop_last() =~= data@.take(i as int));
                assert(data@.take(i + 1).last() == data@[i as int]);
            }
            max = data[i].data_max(&max);
            min = data[i].data_min(&min);
            i += 1;
        }
        proof {
            assert(data@.take(n as int) =~= data@);
        }
        (min, max)
    }
}

// ---- the writer -----------------------------------------------------------

/// The index of a buffer view.
#[derive(Copy, Clone, Debug)]
pub struct BufferViewIndex(pub usize);

/// The index of an accessor.
#[derive(Copy, Clone, Debug)]
pub struct AccessorIndex(pub usize);

/// A buffer view together with the accessor over all of it.
#[derive(Copy, Clone, Debug)]
pub struct BufferViewAndAccessorPair {
    pub view: BufferViewIndex,
    pub accessor: AccessorIndex,
}

impl BufferViewAndAccessorPair {
    pub fn new(view: BufferViewIndex, accessor: AccessorIndex) -> (res: Self)
        ensures
            res.view == view,
            res.accessor == accessor,
    {
        Self { view, accessor }
    }
}

/// A range of the buffer, as glTF describes it.
pub struct BufferView {
    pub buffer: usize,
    pub byte_offset: usize,
    pub byte_len: usize,
    pub stride: Option<usize>,
    pub target: Option<BufferViewTarget>,
}

/// A typed view of the elements of a buffer view.
pub struct Accessor {
    pub buffer_view: usize,
    pub byte_offset: usize,
    pub count: usize,
    pub component_ty: AccessorComponentType,
    pub ty: AccessorDataType,
    /// The text of the bounds, when they are written.
    pub min_max: Option<MinMax<String>>,
}

/// The bytes of `data`'s elements, one after another.
pub open spec fn spec_flatten<T: BufferType>(data: Seq<T>) -> Seq<u8>
    decreases data.len(),
{
    if data.len() == 0 {
        Seq::empty()
    } else {
        spec_flatten(data.drop_last()) + data.last().spec_to_bytes()
    }
}

/// The bytes of `n` elements of a type of size `k` take `n * k` bytes.
pub proof fn lemma_flatten_len<T: BufferType>(data: Seq<T>)
    ensures
        spec_flatten(data).len() == data.len() * T::spec_size(),
    decreases data.len(),
{
    if data.len() > 0 {
        lemma_flatten_len(data.drop_last());
        data.last().lemma_size();
        assert(data.len() * T::spec_size() == (data.len() - 1) * T::spec_size() + T::spec_size())
            by (nonlinear_arith);
    }
}

/// The optional members of a buffer view's JSON object.
pub open spec fn spec_view_extras(v: BufferView) -> Seq<char> {
    (match v.stride {
        Some(stride) => ",\n"@ + "\"byteStride\" : "@ + spec_decimal(stride as nat),
        None => Seq::empty(),
    }) + (match v.target {
        Some(target) => ",\n"@ + "\"target\" : "@ + spec_decimal(target.spec_value()),
        None => Seq::empty(),
    })
}

/// The JSON object of a buffer view.
pub open spec fn spec_view_text(v: BufferView) -> Seq<char> {
    "        {\n            \"buffer\" : "@ + spec_decimal(v.buffer as nat)
        + ",\n            \"byteOffset\" : "@ + spec_decimal(v.byte_offset as nat)
        + ",\n            \"byteLength\" : "@ + spec_decimal(v.byte_len as nat) + spec_view_extras(v)
        + "\n        }"@
}

/// The bounds member of an accessor's JSON object, when it has bounds.
pub open spec fn spec_accessor_extras(a: Accessor) -> Seq<char> {
    match a.min_max {
        Some(m) => ",\n"@ + "                    \"max\" : "@ + m.max@
            + ",\n                    \"min\" : "@ + m.min@,
        None => Seq::empty(),
    }
}

/// The JSON object of an accessor.
pub open spec fn spec_accessor_text(a: Accessor) -> Seq<char> {
    "                {\n                    \"bufferView\" : "@ + spec_decimal(a.buffer_view as nat)
        + ",\n                    \"byteOffset\" : "@ + spec_decimal(a.byte_offset as nat)
        + ",\n                    \"componentType\" : "@ + spec_decimal(a.component_ty.spec_value())
        + ",\n                    \"count\" : "@ + spec_decimal(a.count as nat)
        + ",\n                    \"type\" : \""@ + a.ty.spec_str() + "\""@ + spec_accessor_extras(a)
        + "\n                }"@
}

/// Collects the binary buffer of a glTF file with its views and accessors.
pub struct BufferWriter {
    buffer: Vec<u8>,
    views: Vec<BufferView>,
    accessors: Vec<Accessor>,
}

impl BufferWriter {
    /// The bytes written so far.
    pub closed spec fn spec_buffer(&self) -> Seq<u8> {
        self.buffer@
    }

    /// The buffer views created so far, by index.
    pub closed spec fn spec_views(&self) -> Seq<BufferView> {
        self.views@
    }

    /// The accessors created so far, by index.
    pub closed spec fn spec_accessors(&self) -> Seq<Accessor> {
        self.accessors@
    }

    /// Every buffer view lies within the bytes written so far.
    pub open spec fn spec_views_in_buffer(&self) -> bool {
        forall|i: int|
            0 <= i < self.spec_views().len() ==> (#[trigger] self.spec_views()[i]).byte_offset
                + self.spec_views()[i].byte_len <= self.spec_buffer().len()
    }

    /// The buffer, the views and the accessors each number at most
    /// `usize::MAX`, so the offsets and indices taken from their lengths are
    /// exact.
    pub open spec fn spec_sizes_fit(&self) -> bool {
        &&& self.spec_buffer().len() <= usize::MAX
        &&& self.spec_views().len() <= usize::MAX
        &&& self.spec_accessors().len() <= usize::MAX
    }

    pub fn new() -> (res: Self)
        ensures
            res.spec_views_in_buffer(),
            res.spec_sizes_fit(),
            res.spec_buffer() == Seq::<u8>::empty(),
            res.spec_views() == Seq::<BufferView>::empty(),
            res.spec_accessors() == Seq::<Accessor>::empty(),
    {
        Self { buffer: Vec::new(), views: Vec::new(), accessors: Vec::new() }
    }

    /// Appends the bytes of `data` to the buffer and creates a view over them.
    pub fn create_view<T: BufferType + Copy>(
        &mut self,
        data: &[T],
        target: Option<BufferViewTarget>,
    ) -> (res: BufferViewIndex)
        ensures
            old(self).spec_views_in_buffer() ==> final(self).spec_views_in_buffer(),
            final(self).spec_sizes_fit(),
            final(self).spec_buffer() == old(self).spec_buffer() + spec_flatten(data@),
            final(self).spec_views() == old(self).spec_views().push(
                BufferView {
                    buffer: 0,
                    byte_offset: old(self).spec_buffer().len() as usize,
                    byte_len: spec_flatten(data@).len() as usize,
                    stride: T::spec_stride(),
                    target,
                },
            ),
            final(self).spec_accessors() == old(self).spec_accessors(),
            res.0 == old(self).spec_views().len(),
    {
        let offset = self.buffer.len();
        let n = data.len();
        let mut i: usize = 0;
        while i < n
            invariant
                n == data@.len(),
                0 <= i <= n,
                offset == old(self).buffer@.len(),
                self.buffer@ == old(self).buffer@ + spec_flatten(data@.take(i as int)),
                self.views == old(self).views,
                self.accessors == old(self).accessors,
            decreases n - i,
        {
            proof {
                assert(data@.take(i + 1).drop_last() =~= data@.take(i as int));
                assert(data@.take(i + 1).last() == data@[i as int]);
            }
            let mut bytes = data[i].to_bytes();
            self.buffer.append(&mut bytes);
            i += 1;
            assert(self.buffer@ =~= old(self).buffer@ + spec_flatten(data@.take(i as int)));
        }
        proof {
            assert(data@.take(n as int) =~= data@);
        }
        let byte_len = self.buffer.len() - offset;
        let stride = T::stride();
        let ghost old_views = self.views@;
        let view_index = add_and_get_index(
            &mut self.views,
            BufferView { buffer: 0, byte_offset: offset, byte_len, stride, target },
        );
        proof {
            if old(self).spec_views_in_buffer() {
                assert forall|i: int| 0 <= i < self.views@.len() implies (#[trigger] self.views@[i]).byte_offset
                    + self.views@[i].byte_len <= self.buffer@.len() by {
                    if i < old_views.len() {
                        assert(self.views@[i] == old(self).views@[i]);
                    }
                }
            }
            lemma_writer_bounds(self);
        }
        BufferViewIndex(view_index)
    }

    /// Creates an accessor over `len` elements of type `T` in a view.
    pub fn create_accessor<T: BufferType + Copy>(
        &mut self,
        view_index: BufferViewIndex,
        byte_offset: usize,
        len: usize,
    ) -> (res: AccessorIndex)
        ensures
            final(self).spec_sizes_fit(),
            final(self).spec_buffer() == old(self).spec_buffer(),
            final(self).spec_views() == old(self).spec_views(),
            final(self).spec_accessors() == old(self).spec_accessors().push(
                Accessor {
                    buffer_view: view_index.0,
                    byte_offset,
                    count: len,
                    component_ty: T::spec_component_ty(),
                    ty: T::spec_data_ty(),
                    min_max: None,
                },
            ),
            res.0 == old(self).spec_accessors().len(),
    {
        let index = add_and_get_index(
            &mut self.accessors,
            Accessor {
                buffer_view: view_index.0,
                byte_offset,
                count: len,
                component_ty: T::component_ty(),
                ty: T::data_ty(),
                min_max: None,
            },
        );
        proof {
            lemma_writer_bounds(self);
        }
        AccessorIndex(index)
    }

    /// Creates an accessor whose bounds are given as text.
    pub fn create_accessor_with_min_max_text<T: BufferType + Copy>(
        &mut self,
        view_index: BufferViewIndex,
        byte_offset: usize,
        len: usize,
        min_max: MinMax<String>,
    ) -> (res: AccessorIndex)
        ensures
            final(self).spec_sizes_fit(),
            final(self).spec_buffer() == old(self).spec_buffer(),
            final(self).spec_views() == old(self).spec_views(),
            final(self).spec_accessors() == old(self).spec_accessors().push(
                Accessor {
                    buffer_view: view_index.0,
                    byte_offset,
                    count: len,
                    component_ty: T::spec_component_ty(),
                    ty: T::spec_data_ty(),
                    min_max: Some(min_max),
                },
            ),
            res.0 == old(self).spec_accessors().len(),
    {
        let index = add_and_get_index(
            &mut self.accessors,
            Accessor {
                buffer_view: view_index.0,
                byte_offset,
                count: len,
                component_ty: T::component_ty(),
                ty: T::data_ty(),
                min_max: Some(min_max),
            },
        );
        proof {
            lemma_writer_bounds(self);
        }
        AccessorIndex(index)
    }

    /// Creates an accessor with the bounds `min_max`, written as text.
    pub fn create_accessor_with_min_max<T: BufferTypeMinMax + Copy>(
        &mut self,
        view_index: BufferViewIndex,
        byte_offset: usize,
        len: usize,
        min_max: MinMax<T>,
    ) -> (res: AccessorIndex)
        ensures
            final(self).spec_sizes_fit(),
            final(self).spec_buffer() == old(self).spec_buffer(),
            final(self).spec_views() == old(self).spec_views(),
            final(self).spec_accessors().len() == old(self).spec_accessors().len() + 1,
            final(self).spec_accessors().drop_last() == old(self).spec_accessors(),
            ({
                let a = final(self).spec_accessors().last();
                &&& a.buffer_view == view_index.0
                &&& a.byte_offset == byte_offset
                &&& a.count == len
                &&& a.component_ty == T::spec_component_ty()
                &&& a.ty == T::spec_data_ty()
                &&& a.min_max matches Some(m)
                &&& m.min@ == min_max.min.spec_write_value()
                &&& m.max@ == min_max.max.spec_write_value()
            }),
            res.0 == old(self).spec_accessors().len(),
    {
        let text = MinMax { min: min_max.min.write_value(), max: min_max.max.write_value() };
        let res = self.create_accessor_with_min_max_text::<T>(view_index, byte_offset, len, text);
        assert(self.accessors@.drop_last() =~= old(self).accessors@);
        res
    }

    /// Writes `data` into a new view and creates an accessor over all of it.
    pub fn create_view_and_accessor<T: BufferType + Copy>(
        &mut self,
        data: &[T],
        target: Option<BufferViewTarget>,
    ) -> (res: BufferViewAndAccessorPair)
        ensures
            old(self).spec_views_in_buffer() ==> final(self).spec_views_in_buffer(),
            final(self).spec_sizes_fit(),
            final(self).spec_buffer() == old(self).spec_buffer() + spec_flatten(data@),
            final(self).spec_views() == old(self).spec_views().push(
                BufferView {
                    buffer: 0,
                    byte_offset: old(self).spec_buffer().len() as usize,
                    byte_len: spec_flatten(data@).len() as usize,
                    stride: T::spec_stride(),
                    target,
                },
            ),
            final(self).spec_accessors() == old(self).spec_accessors().push(
                Accessor {
                    buffer_view: old(self).spec_views().len() as usize,
                    byte_offset: 0,
                    count: data@.len() as usize,
                    component_ty: T::spec_component_ty(),
                    ty: T::spec_data_ty(),
                    min_max: None,
                },
            ),
            res.view.0 == old(self).spec_views().len(),
            res.accessor.0 == old(self).spec_accessors().len(),
    {
        let view = self.create_view(data, target);
        let accessor = self.create_accessor::<T>(view, 0, data.len());
        BufferViewAndAccessorPair::new(view, accessor)
    }

    /// Writes `data` into a new view and creates an accessor over all of it,
    /// with the least and greatest elements as its bounds.
    pub fn create_view_and_accessor_with_min_max<T: BufferTypeMinMax + Copy>(
        &mut self,
        data: &[T],
        target: Option<BufferViewTarget>,
    ) -> (res: BufferViewAndAccessorPair)
        ensures
            old(self).spec_views_in_buffer() ==> final(self).spec_views_in_buffer(),
            final(self).spec_sizes_fit(),
            final(self).spec_buffer() == old(self).spec_buffer() + spec_flatten(data@),
            final(self).spec_views() == old(self).spec_views().push(
                BufferView {
                    buffer: 0,
                    byte_offset: old(self).spec_buffer().len() as usize,
                    byte_len: spec_flatten(data@).len() as usize,
                    stride: T::spec_stride(),
                    target,
                },
            ),
            final(self).spec_accessors().len() == old(self).spec_accessors().len() + 1,
            final(self).spec_accessors().drop_last() == old(self).spec_accessors(),
            ({
                let a = final(self).spec_accessors().last();
                &&& a.buffer_view == old(self).spec_views().len()
                &&& a.byte_offset == 0
                &&& a.count == data@.len()
                &&& a.component_ty == T::spec_component_ty()
                &&& a.ty == T::spec_data_ty()
                &&& a.min_max matches Some(m)
                &&& m.min@ == spec_fold_min(data@).spec_write_value()
                &&& m.max@ == spec_fold_max(data@).spec_write_value()
            }),
            res.view.0 == old(self).spec_views().len(),
            res.accessor.0 == old(self).spec_accessors().len(),
    {
        let view = self.create_view(data, target);
        let (min, max) = T::find_min_max(data);
        let min_max = MinMax { min, max };
        let accessor = self.create_accessor_with_min_max(view, 0, data.len(), min_max);
        BufferViewAndAccessorPair::new(view, accessor)
    }

    /// The JSON objects of the buffer views, in index order.
    pub fn write_buffer_views(&self) -> (res: Vec<String>)
        ensures
            res@.len() == self.spec_views().len(),
            forall|i: int|
                0 <= i < res@.len() ==> #[trigger] res@[i]@ == spec_view_text(
                    self.spec_views()[i],
                ),
    {
        let mut views: Vec<String> = Vec::new();
        let n = self.views.len();
        let mut i: usize = 0;
        while i < n
            invariant
                n == self.views@.len(),
                0 <= i <= n,
                views@.len() == i,
                forall|j: int|
                    0 <= j < i ==> #[trigger] views@[j]@ == spec_view_text(self.views@[j]),
            decreases n - i,
        {
            let view = &self.views[i];
            let mut text = String::from_str("        {\n            \"buffer\" : ");
            text.append(decimal(view.buffer as u64).as_str());
            text.append(",\n            \"byteOffset\" : ");
            text.append(decimal(view.byte_offset as u64).as_str());
            text.append(",\n            \"byteLength\" : ");
            text.append(decimal(view.byte_len as u64).as_str());
            if let Some(stride) = view.stride {
                text.append(",\n");
                text.append("\"byteStride\" : ");
                text.append(decimal(stride as u64).as_str());
            }
            if let Some(target) = view.target {
                text.append(",\n");
                text.append("\"target\" : ");
                text.append(decimal(target.value()).as_str());
            }
            text.append("\n        }");
            views.push(text);
            i += 1;
        }
        views
    }

    /// The JSON objects of the accessors, in index order.
    pub fn write_accessors(&self) -> (res: Vec<String>)
        ensures
            res@.len() == self.spec_accessors().len(),
            forall|i: int|
                0 <= i < res@.len() ==> #[trigger] res@[i]@ == spec_accessor_text(
                    self.spec_accessors()[i],
                ),
    {
        let mut accessors: Vec<String> = Vec::new();
        let n = self.accessors.len();
        let mut i: usize = 0;
        while i < n
            invariant
                n == self.accessors@.len(),
                0 <= i <= n,
                accessors@.len() == i,
                forall|j: int|
                    0 <= j < i ==> #[trigger] accessors@[j]@ == spec_accessor_text(
                        self.accessors@[j],
                    ),
            decreases n - i,
        {
            let accessor = &self.accessors[i];
            let mut text = String::from_str(
                "                {\n                    \"bufferView\" : ",
            );
            text.append(decimal(accessor.buffer_view as u64).as_str());
            text.append(",\n                    \"byteOffset\" : ");
            text.append(decimal(accessor.byte_offset as u64).as_str());
            text.append(",\n                    \"componentType\" : ");
            text.append(decimal(accessor.component_ty.value()).as_str());
            text.append(",\n                    \"count\" : ");
            text.append(decimal(accessor.count as u64).as_str());
            text.append(",\n                    \"type\" : \"");
            text.append(accessor.ty.as_str());
            text.append("\"");
            if let Some(min_max) = &accessor.min_max {
                text.append(",\n");
                text.append("                    \"max\" : ");
                text.append(min_max.max.as_str());
                text.append(",\n                    \"min\" : ");
                text.append(min_max.min.as_str());
            }
            text.append("\n                }");
            accessors.push(text);
            i += 1;
        }
        accessors
    }

    /// The number of bytes written so far.
    pub fn buffer_len(&self) -> (res: usize)
        ensures
            res == self.spec_buffer().len(),
    {
        self.buffer.len()
    }

    /// The bytes written, for the binary buffer file.
    pub fn to_inner(self) -> (res: Vec<u8>)
        ensures
            res@ == self.spec_buffer(),
    {
        self.buffer
    }
}

/// The buffer after steps that each append their bytes to it (no bytes for
/// a step that only creates an accessor), starting from `start`.
pub open spec fn spec_buffer_after(start: Seq<u8>, chunks: Seq<Seq<u8>>) -> Seq<u8>
    decreases chunks.len(),
{
    if chunks.len() == 0 {
        start
    } else {
        spec_buffer_after(start, chunks.drop_last()) + chunks.last()
    }
}

/// Over any sequence of calls on a new writer, the buffer (what `to_inner`
/// returns) is the concatenation of the bytes each call appends: for a call
/// that creates a view, the flattened data of that view, which then lies at
/// the view's offset (the length of the buffer before the call).
pub proof fn lemma_buffer_is_concatenation(chunks: Seq<Seq<u8>>)
    ensures
        forall|k: int|
            0 <= k < chunks.len() ==> {
                let offset = #[trigger] spec_buffer_after(Seq::empty(), chunks.take(k)).len();
                &&& offset + chunks[k].len() <= spec_buffer_after(Seq::empty(), chunks).len()
                &&& spec_buffer_after(Seq::empty(), chunks).subrange(offset as int, (offset + chunks[k].len()) as int)
                    == chunks[k]
            },
    decreases chunks.len(),
{
    if chunks.len() > 0 {
        let prev = chunks.drop_last();
        lemma_buffer_is_concatenation(prev);
        let all = spec_buffer_after(Seq::empty(), chunks);
        let before = spec_buffer_after(Seq::empty(), prev);
        assert forall|k: int| 0 <= k < chunks.len() implies {
            let offset = #[trigger] spec_buffer_after(Seq::empty(), chunks.take(k)).len();
            &&& offset + chunks[k].len() <= all.len()
            &&& all.subrange(offset as int, (offset + chunks[k].len()) as int) == chunks[k]
        } by {
            if k < chunks.len() - 1 {
                assert(chunks.take(k) =~= prev.take(k));
                assert(prev[k] == chunks[k]);
                let offset = spec_buffer_after(Seq::empty(), prev.take(k)).len();
                assert(before.subrange(offset as int, (offset + prev[k].len()) as int) == prev[k]);
                assert(all.subrange(offset as int, (offset + chunks[k].len()) as int) =~= before.subrange(offset as int, (offset + prev[k].len()) as int));
            } else {
                assert(chunks.take(k) =~= prev);
                assert(all.subrange(before.len() as int, (before.len() + chunks[k].len()) as int) =~= chunks[k]);
            }
        }
    }
}

/// The sizes of a writer's buffer, views and accessors fit in `usize`.
pub proof fn lemma_writer_bounds(w: &BufferWriter)
    ensures
        w.spec_buffer().len() <= usize::MAX,
        w.spec_views().len() <= usize::MAX,
        w.spec_accessors().len() <= usize::MAX,
{
    broadcast use vstd::std_specs::vec::axiom_spec_len;
    assert(w.buffer.len() == w.buffer@.len());
    assert(w.views.len() == w.views@.len());
    assert(w.accessors.len() == w.accessors@.len());
}

/// Over any sequence of calls on a new writer (`states[0]` is what `new`
/// gives, `states[i + 1]` the writer after call `i`), where each call appends
/// `appended[i]` to the buffer (the flattened data for `create_view` and the
/// `create_view_and_accessor` calls, nothing for the accessor calls, as their
/// contracts state), the buffer that `to_inner` returns at the end is the
/// concatenation of what the calls appended, and the bytes of call `k` lie
/// where the buffer ended before it, which is the offset of the view it made.
pub proof fn lemma_buffer_after_calls(states: Seq<BufferWriter>, appended: Seq<Seq<u8>>)
    requires
        states.len() == appended.len() + 1,
        states[0].spec_buffer() == Seq::<u8>::empty(),
        forall|i: int|
            0 <= i < appended.len() ==> states[i + 1].spec_buffer() == states[i].spec_buffer()
                + #[trigger] appended[i],
    ensures
        states.last().spec_buffer() == spec_buffer_after(Seq::empty(), appended),
        forall|k: int|
            0 <= k < appended.len() ==> {
                let offset = #[trigger] states[k].spec_buffer().len();
                &&& offset + appended[k].len() <= states.last().spec_buffer().len()
                &&& states.last().spec_buffer().subrange(offset as int, (offset + appended[k].len()) as int)
                    == appended[k]
            },
{
    lemma_states_follow_calls(states, appended, appended.len() as int);
    lemma_buffer_is_concatenation(appended);
    assert(appended.take(appended.len() as int) =~= appended);
    assert forall|k: int| 0 <= k < appended.len() implies {
        let offset = #[trigger] states[k].spec_buffer().len();
        &&& offset + appended[k].len() <= states.last().spec_buffer().len()
        &&& states.last().spec_buffer().subrange(offset as int, (offset + appended[k].len()) as int)
            == appended[k]
    } by {
        lemma_states_follow_calls(states, appended, k);
        let offset = spec_buffer_after(Seq::empty(), appended.take(k)).len();
        assert(offset == states[k].spec_buffer().len());
    }
}

proof fn lemma_states_follow_calls(states: Seq<BufferWriter>, appended: Seq<Seq<u8>>, n: int)
    requires
        states.len() == appended.len() + 1,
        0 <= n <= appended.len(),
        states[0].spec_buffer() == Seq::<u8>::empty(),
        forall|i: int|
            0 <= i < appended.len() ==> states[i + 1].spec_buffer() == states[i].spec_buffer()
                + #[trigger] appended[i],
    ensures
        states[n].spec_buffer() == spec_buffer_after(Seq::empty(), appended.take(n)),
    decreases n,
{
    if n > 0 {
        lemma_states_follow_calls(states, appended, n - 1);
        assert(appended.take(n).drop_last() =~= appended.take(n - 1));
        assert(appended.take(n).last() == appended[n - 1]);
        assert(states[n].spec_buffer() == states[n - 1].spec_buffer() + appended[n - 1]);
    } else {
        assert(appended.take(0) =~= Seq::<Seq<u8>>::empty());
    }
}

} // verus!
