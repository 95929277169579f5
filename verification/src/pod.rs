//! POD codec: every value is serialized as a header `(body size: u32,
//! kind: u32)` followed by the body and zero padding up to the next multiple
//! of eight bytes. Sizes count the body only. All multi-byte integers are
//! little-endian, the native order of the supported targets.

use vstd::prelude::*;
use vstd::bytes::{
    lemma_auto_spec_u32_to_from_le_bytes, lemma_auto_spec_u64_to_from_le_bytes,
    spec_u32_from_le_bytes, spec_u32_to_le_bytes, spec_u64_from_le_bytes, spec_u64_to_le_bytes,
    u32_from_le_bytes, u32_to_le_bytes, u64_from_le_bytes, u64_to_le_bytes,
};
use vstd::slice::slice_subrange;

use crate::pod::types::{type_code, Double, Fd, Float, Fraction, Id, Rectangle, Type};

pub mod builder;
pub mod parser;
pub mod types;

verus! {

/// Number of padding bytes that follow a body of `size` bytes.
pub open spec fn spec_pad_8(size: int) -> int {
    if size % 8 > 0 {
        8 - size % 8
    } else {
        0
    }
}

/// Padding needed to align a body of `size` bytes to the next 8-byte boundary.
pub fn pad_8(size: usize) -> (r: usize)
    ensures
        r as int == spec_pad_8(size as int),
        r < 8,
{
    if size % 8 > 0 {
        8 - size % 8
    } else {
        0
    }
}

/// Body size and padding of each fixed-size POD kind; the kinds with an
/// internal structure of their own have no fixed size.
pub fn primitive_pod_size(t: Type) -> (r: Option<(usize, usize)>)
    ensures
        match t {
            Type::NoneVal => r == Option::Some((0usize, 0usize)),
            Type::Bool | Type::Id | Type::Int | Type::Float => r == Option::Some((4usize, 4usize)),
            Type::Long | Type::Double | Type::Fd | Type::Rectangle | Type::Fraction => r
                == Option::Some((8usize, 0usize)),
            _ => r is None,
        },
{
    match t {
        Type::NoneVal => Option::Some((0, 0)),
        Type::Bool => Option::Some((4, 4)),
        Type::Id => Option::Some((4, 4)),
        Type::Int => Option::Some((4, 4)),
        Type::Long => Option::Some((8, 0)),
        Type::Float => Option::Some((4, 4)),
        Type::Double => Option::Some((8, 0)),
        Type::Fd => Option::Some((8, 0)),
        Type::Rectangle => Option::Some((8, 0)),
        Type::Fraction => Option::Some((8, 0)),
        _ => Option::None,
    }
}

/// A run of `n` zero bytes.
pub open spec fn zeros(n: int) -> Seq<u8> {
    Seq::new(if n >= 0 { n as nat } else { 0 }, |i: int| 0u8)
}

/// The full serialization of one POD: size header, kind header, body,
/// alignment padding.
pub open spec fn spec_pod(kind: u32, body: Seq<u8>) -> Seq<u8> {
    spec_u32_to_le_bytes(body.len() as u32) + spec_u32_to_le_bytes(kind) + body + zeros(
        spec_pad_8(body.len() as int),
    )
}

/// Header invariants and alignment of every encoded POD: the first four
/// bytes hold exactly the body size, the next four the kind, and the total
/// length is the padded body length, a multiple of eight.
pub proof fn lemma_pod_layout(kind: u32, body: Seq<u8>)
    requires
        body.len() <= u32::MAX,
    ensures
        spec_pod(kind, body).len() == 8 + body.len() + spec_pad_8(body.len() as int),
        spec_pod(kind, body).len() % 8 == 0,
        spec_pod(kind, body).subrange(0, 4) == spec_u32_to_le_bytes(body.len() as u32),
        spec_pod(kind, body).subrange(4, 8) == spec_u32_to_le_bytes(kind),
        spec_pod(kind, body).subrange(8, 8 + body.len() as int) == body,
{
    lemma_auto_spec_u32_to_from_le_bytes();
    let p = spec_pod(kind, body);
    assert(p.subrange(0, 4) =~= spec_u32_to_le_bytes(body.len() as u32));
    assert(p.subrange(4, 8) =~= spec_u32_to_le_bytes(kind));
    assert(p.subrange(8, 8 + body.len() as int) =~= body);
}

/// A fixed-size POD kind: one with a body of a fixed width of at most eight
/// bytes whose serialization carries no internal structure of its own.
pub trait Primitive: Sized + Copy {
    /// Numeric code of this kind.
    spec fn prim_kind() -> u32;

    /// Body width in bytes.
    spec fn prim_size() -> int;

    /// The body serialization of this value.
    spec fn prim_body(self) -> Seq<u8>;

    /// The value read back from a body serialization.
    spec fn prim_dec(bytes: Seq<u8>) -> Self;

    /// Width, body length and round trip of the body serialization.
    proof fn lemma_prim_facts(self)
        ensures
            Self::prim_size() == 4 || Self::prim_size() == 8,
            self.prim_body().len() == Self::prim_size(),
            Self::prim_dec(self.prim_body()) == self,
    ;

    /// The kind tag of this type.
    fn pod_type() -> (t: Type)
        ensures
            type_code(t) == Self::prim_kind(),
    ;

    /// The body width of this type.
    fn pod_size() -> (s: usize)
        ensures
            s as int == Self::prim_size(),
            s == 4 || s == 8,
    ;

    /// Append the body serialization of this value.
    fn encode_body(&self, out: &mut Vec<u8>)
        ensures
            final(out)@ == old(out)@ + self.prim_body(),
    ;

    /// Read a value back from a body serialization.
    fn decode_body(data: &[u8]) -> (r: Self)
        requires
            data@.len() == Self::prim_size(),
        ensures
            r == Self::prim_dec(data@),
    ;
}

impl Primitive for bool {
    open spec fn prim_kind() -> u32 {
        2u32
    }

    open spec fn prim_size() -> int {
        4
    }

    open spec fn prim_body(self) -> Seq<u8> {
        spec_u32_to_le_bytes(if self { 1u32 } else { 0u32 })
    }

    open spec fn prim_dec(bytes: Seq<u8>) -> Self {
        spec_u32_from_le_bytes(bytes) != 0
    }

    proof fn lemma_prim_facts(self) {
        lemma_auto_spec_u32_to_from_le_bytes();
    }

    fn pod_type() -> (t: Type) {
        Type::Bool
    }

    fn pod_size() -> (s: usize) {
        4
    }

    fn encode_body(&self, out: &mut Vec<u8>) {
        let v: u32 = if *self {
            1
        } else {
            0
        };
        let mut b = u32_to_le_bytes(v);
        out.append(&mut b);
    }

    fn decode_body(data: &[u8]) -> (r: Self) {
        let v = u32_from_le_bytes(data);
        v != 0
    }
}

impl Primitive for Id {
    open spec fn prim_kind() -> u32 {
        3u32
    }

    open spec fn prim_size() -> int {
        4
    }

    open spec fn prim_body(self) -> Seq<u8> {
        spec_u32_to_le_bytes(self.0)
    }

    open spec fn prim_dec(bytes: Seq<u8>) -> Self {
        Id(spec_u32_from_le_bytes(bytes))
    }

    proof fn lemma_prim_facts(self) {
        lemma_auto_spec_u32_to_from_le_bytes();
    }

    fn pod_type() -> (t: Type) {
        Type::Id
    }

    fn pod_size() -> (s: usize) {
        4
    }

    fn encode_body(&self, out: &mut Vec<u8>) {
        let mut b = u32_to_le_bytes(self.0);
        out.append(&mut b);
    }

    fn decode_body(data: &[u8]) -> (r: Self) {
        Id(u32_from_le_bytes(data))
    }
}

impl Primitive for i32 {
    open spec fn prim_kind() -> u32 {
        4u32
    }

    open spec fn prim_size() -> int {
        4
    }

    open spec fn prim_body(self) -> Seq<u8> {
        spec_u32_to_le_bytes(self as u32)
    }

    open spec fn prim_dec(bytes: Seq<u8>) -> Self {
        spec_u32_from_le_bytes(bytes) as i32
    }

    proof fn lemma_prim_facts(self) {
        lemma_auto_spec_u32_to_from_le_bytes();
        assert((self as u32) as i32 == self) by (bit_vector);
    }

    fn pod_type() -> (t: Type) {
        Type::Int
    }

    fn pod_size() -> (s: usize) {
        4
    }

    fn encode_body(&self, out: &mut Vec<u8>) {
        let mut b = u32_to_le_bytes(*self as u32);
        out.append(&mut b);
    }

    fn decode_body(data: &[u8]) -> (r: Self) {
        u32_from_le_bytes(data) as i32
    }
}

impl Primitive for i64 {
    open spec fn prim_kind() -> u32 {
        5u32
    }

    open spec fn prim_size() -> int {
        8
    }

    open spec fn prim_body(self) -> Seq<u8> {
        spec_u64_to_le_bytes(self as u64)
    }

    open spec fn prim_dec(bytes: Seq<u8>) -> Self {
        spec_u64_from_le_bytes(bytes) as i64
    }

    proof fn lemma_prim_facts(self) {
        lemma_auto_spec_u64_to_from_le_bytes();
        assert((self as u64) as i64 == self) by (bit_vector);
    }

    fn pod_type() -> (t: Type) {
        Type::Long
    }

    fn pod_size() -> (s: usize) {
        8
    }

    fn encode_body(&self, out: &mut Vec<u8>) {
        let mut b = u64_to_le_bytes(*self as u64);
        out.append(&mut b);
    }

    fn decode_body(data: &[u8]) -> (r: Self) {
        u64_from_le_bytes(data) as i64
    }
}

impl Primitive for Float {
    open spec fn prim_kind() -> u32 {
        6u32
    }

    open spec fn prim_size() -> int {
        4
    }

    open spec fn prim_body(self) -> Seq<u8> {
        spec_u32_to_le_bytes(self.0)
    }

    open spec fn prim_dec(bytes: Seq<u8>) -> Self {
        Float(spec_u32_from_le_bytes(bytes))
    }

    proof fn lemma_prim_facts(self) {
        lemma_auto_spec_u32_to_from_le_bytes();
    }

    fn pod_type() -> (t: Type) {
        Type::Float
    }

    fn pod_size() -> (s: usize) {
        4
    }

    fn encode_body(&self, out: &mut Vec<u8>) {
        let mut b = u32_to_le_bytes(self.0);
        out.append(&mut b);
    }

    fn decode_body(data: &[u8]) -> (r: Self) {
        Float(u32_from_le_bytes(data))
    }
}

impl Primitive for Double {
    open spec fn prim_kind() -> u32 {
        7u32
    }

    open spec fn prim_size() -> int {
        8
    }

    open spec fn prim_body(self) -> Seq<u8> {
        spec_u64_to_le_bytes(self.0)
    }

    open spec fn prim_dec(bytes: Seq<u8>) -> Self {
        Double(spec_u64_from_le_bytes(bytes))
    }

    proof fn lemma_prim_facts(self) {
        lemma_auto_spec_u64_to_from_le_bytes();
    }

    fn pod_type() -> (t: Type) {
        Type::Double
    }

    fn pod_size() -> (s: usize) {
        8
    }

    fn encode_body(&self, out: &mut Vec<u8>) {
        let mut b = u64_to_le_bytes(self.0);
        out.append(&mut b);
    }

    fn decode_body(data: &[u8]) -> (r: Self) {
        Double(u64_from_le_bytes(data))
    }
}

impl Primitive for Fd {
    open spec fn prim_kind() -> u32 {
        18u32
    }

    open spec fn prim_size() -> int {
        8
    }

    open spec fn prim_body(self) -> Seq<u8> {
        spec_u64_to_le_bytes((self.0 as i64) as u64)
    }

    open spec fn prim_dec(bytes: Seq<u8>) -> Self {
        Fd(spec_u64_from_le_bytes(bytes) as i32)
    }

    proof fn lemma_prim_facts(self) {
        lemma_auto_spec_u64_to_from_le_bytes();
        let v = self.0;
        assert(((v as i64) as u64) as i32 == v) by (bit_vector);
    }

    fn pod_type() -> (t: Type) {
        Type::Fd
    }

    fn pod_size() -> (s: usize) {
        8
    }

    fn encode_body(&self, out: &mut Vec<u8>) {
        let mut b = u64_to_le_bytes((self.0 as i64) as u64);
        out.append(&mut b);
    }

    fn decode_body(data: &[u8]) -> (r: Self) {
        Fd(u64_from_le_bytes(data) as i32)
    }
}

impl Primitive for Rectangle {
    open spec fn prim_kind() -> u32 {
        10u32
    }

    open spec fn prim_size() -> int {
        8
    }

    open spec fn prim_body(self) -> Seq<u8> {
        spec_u32_to_le_bytes(self.width) + spec_u32_to_le_bytes(self.height)
    }

    open spec fn prim_dec(bytes: Seq<u8>) -> Self {
        Rectangle {
            width: spec_u32_from_le_bytes(bytes.subrange(0, 4)),
            height: spec_u32_from_le_bytes(bytes.subrange(4, 8)),
        }
    }

    proof fn lemma_prim_facts(self) {
        lemma_auto_spec_u32_to_from_le_bytes();
        assert(self.prim_body().subrange(0, 4) =~= spec_u32_to_le_bytes(self.width));
        assert(self.prim_body().subrange(4, 8) =~= spec_u32_to_le_bytes(self.height));
    }

    fn pod_type() -> (t: Type) {
        Type::Rectangle
    }

    fn pod_size() -> (s: usize) {
        8
    }

    fn encode_body(&self, out: &mut Vec<u8>) {
        let mut b = u32_to_le_bytes(self.width);
        out.append(&mut b);
        let mut b2 = u32_to_le_bytes(self.height);
        out.append(&mut b2);
        proof {
            assert(final(out)@ =~= old(out)@ + self.prim_body());
        }
    }

    fn decode_body(data: &[u8]) -> (r: Self) {
        let width = u32_from_le_bytes(slice_subrange(data, 0, 4));
        let height = u32_from_le_bytes(slice_subrange(data, 4, 8));
        Rectangle { width, height }
    }
}

impl Primitive for Fraction {
    open spec fn prim_kind() -> u32 {
        11u32
    }

    open spec fn prim_size() -> int {
        8
    }

    open spec fn prim_body(self) -> Seq<u8> {
        spec_u32_to_le_bytes(self.num) + spec_u32_to_le_bytes(self.denom)
    }

    open spec fn prim_dec(bytes: Seq<u8>) -> Self {
        Fraction {
            num: spec_u32_from_le_bytes(bytes.subrange(0, 4)),
            denom: spec_u32_from_le_bytes(bytes.subrange(4, 8)),
        }
    }

    proof fn lemma_prim_facts(self) {
        lemma_auto_spec_u32_to_from_le_bytes();
        assert(self.prim_body().subrange(0, 4) =~= spec_u32_to_le_bytes(self.num));
        assert(self.prim_body().subrange(4, 8) =~= spec_u32_to_le_bytes(self.denom));
    }

    fn pod_type() -> (t: Type) {
        Type::Fraction
    }

    fn pod_size() -> (s: usize) {
        8
    }

    fn encode_body(&self, out: &mut Vec<u8>) {
        let mut b = u32_to_le_bytes(self.num);
        out.append(&mut b);
        let mut b2 = u32_to_le_bytes(self.denom);
        out.append(&mut b2);
        proof {
            assert(final(out)@ =~= old(out)@ + self.prim_body());
        }
    }

    fn decode_body(data: &[u8]) -> (r: Self) {
        let num = u32_from_le_bytes(slice_subrange(data, 0, 4));
        let denom = u32_from_le_bytes(slice_subrange(data, 4, 8));
        Fraction { num, denom }
    }
}

/// The full serialization of a fixed-size POD.
pub open spec fn spec_prim_pod<T: Primitive>(v: T) -> Seq<u8> {
    spec_pod(T::prim_kind(), v.prim_body())
}

/// Decoding of a fixed-size POD from the front of `data`: the declared size
/// and kind must match the type, and the padded extent must be present.
/// Returns the value and the number of bytes consumed.
pub open spec fn spec_prim_dec<T: Primitive>(data: Seq<u8>) -> Option<(T, int)> {
    let size = T::prim_size();
    let total = 8 + size + spec_pad_8(size);
    if data.len() >= total && spec_u32_from_le_bytes(data.subrange(0, 4)) == size
        && spec_u32_from_le_bytes(data.subrange(4, 8)) == T::prim_kind() {
        Option::Some((T::prim_dec(data.subrange(8, 8 + size)), total))
    } else {
        Option::None
    }
}

/// Round trip of every fixed-size POD kind, whatever follows it in the
/// buffer: decoding an encoded value yields the value back and consumes
/// exactly its padded length. Trailing bytes do not change the result.
pub proof fn lemma_prim_round_trip<T: Primitive>(v: T, extra: Seq<u8>)
    ensures
        spec_prim_dec::<T>(spec_prim_pod(v) + extra) == Option::Some(
            (v, spec_prim_pod(v).len() as int),
        ),
{
    v.lemma_prim_facts();
    lemma_pod_layout(T::prim_kind(), v.prim_body());
    lemma_auto_spec_u32_to_from_le_bytes();
    let enc = spec_prim_pod(v);
    let data = enc + extra;
    let size = T::prim_size();
    assert(data.subrange(0, 4) =~= enc.subrange(0, 4));
    assert(data.subrange(4, 8) =~= enc.subrange(4, 8));
    assert(data.subrange(8, 8 + size) =~= enc.subrange(8, 8 + size));
}

} // verus!

verus! {

/// Decoding of the frame of a POD of kind `kind` from the front of `data`:
/// the header must declare the kind, and the padded extent must be present.
/// Returns the body bytes and the number of bytes consumed.
pub open spec fn spec_framed_dec(data: Seq<u8>, kind: u32) -> Option<(Seq<u8>, int)> {
    if data.len() >= 8 {
        let size = spec_u32_from_le_bytes(data.subrange(0, 4)) as int;
        let total = 8 + size + spec_pad_8(size);
        if spec_u32_from_le_bytes(data.subrange(4, 8)) == kind && data.len() >= total {
            Option::Some((data.subrange(8, 8 + size), total))
        } else {
            Option::None
        }
    } else {
        Option::None
    }
}

/// Round trip of the frame, whatever follows it in the buffer: framing a
/// body and reading the frame back yields the body and consumes exactly the
/// padded length.
pub proof fn lemma_framed_round_trip(kind: u32, body: Seq<u8>, extra: Seq<u8>)
    requires
        body.len() <= u32::MAX,
    ensures
        spec_framed_dec(spec_pod(kind, body) + extra, kind) == Option::Some(
            (body, spec_pod(kind, body).len() as int),
        ),
{
    lemma_pod_layout(kind, body);
    lemma_auto_spec_u32_to_from_le_bytes();
    let enc = spec_pod(kind, body);
    let data = enc + extra;
    assert(data.subrange(0, 4) =~= enc.subrange(0, 4));
    assert(data.subrange(4, 8) =~= enc.subrange(4, 8));
    assert(data.subrange(8, 8 + body.len() as int) =~= enc.subrange(8, 8 + body.len() as int));
}

/// The serialization of a String POD: the bytes, a terminating zero, padding.
pub open spec fn spec_string_pod(bytes: Seq<u8>) -> Seq<u8> {
    spec_pod(8, bytes + seq![0u8])
}

/// Decoding of a String POD: the declared size includes the terminating
/// zero, which must be present; the bytes before it are the value.
pub open spec fn spec_string_dec(data: Seq<u8>) -> Option<(Seq<u8>, int)> {
    match spec_framed_dec(data, 8) {
        Option::Some((body, total)) => {
            if body.len() >= 1 && body.last() == 0u8 {
                Option::Some((body.drop_last(), total))
            } else {
                Option::None
            }
        },
        Option::None => Option::None,
    }
}

/// Round trip of the String kind, whatever follows it in the buffer.
pub proof fn lemma_string_round_trip(bytes: Seq<u8>, extra: Seq<u8>)
    requires
        bytes.len() + 1 <= u32::MAX,
    ensures
        spec_string_dec(spec_string_pod(bytes) + extra) == Option::Some(
            (bytes, spec_string_pod(bytes).len() as int),
        ),
{
    lemma_framed_round_trip(8, bytes + seq![0u8], extra);
    assert((bytes + seq![0u8]).drop_last() =~= bytes);
}

/// The serialization of a Bytes POD: the raw bytes and padding.
pub open spec fn spec_bytes_pod(bytes: Seq<u8>) -> Seq<u8> {
    spec_pod(9, bytes)
}

/// Decoding of a Bytes POD.
pub open spec fn spec_bytes_dec(data: Seq<u8>) -> Option<(Seq<u8>, int)> {
    spec_framed_dec(data, 9)
}

/// Round trip of the Bytes kind, whatever follows it in the buffer.
pub proof fn lemma_bytes_round_trip(bytes: Seq<u8>, extra: Seq<u8>)
    requires
        bytes.len() <= u32::MAX,
    ensures
        spec_bytes_dec(spec_bytes_pod(bytes) + extra) == Option::Some(
            (bytes, spec_bytes_pod(bytes).len() as int),
        ),
{
    lemma_framed_round_trip(9, bytes, extra);
}

/// The serialization of a Pointer POD: the pointee kind, a reserved zero
/// word, and the native word; sixteen body bytes on the supported targets.
pub open spec fn spec_pointer_pod(p: types::Pointer) -> Seq<u8> {
    spec_pod(
        17,
        spec_u32_to_le_bytes(type_code(p.type_)) + spec_u32_to_le_bytes(0u32)
            + spec_u64_to_le_bytes(p.ptr),
    )
}

/// Decoding of a Pointer POD: the pointee kind must be a known code.
pub open spec fn spec_pointer_dec(data: Seq<u8>) -> Option<(types::Pointer, int)> {
    match spec_framed_dec(data, 17) {
        Option::Some((body, total)) => {
            if body.len() == 16 {
                match types::spec_type_from(spec_u32_from_le_bytes(body.subrange(0, 4))) {
                    Option::Some(t) => Option::Some(
                        (
                            types::Pointer {
                                type_: t,
                                ptr: spec_u64_from_le_bytes(body.subrange(8, 16)),
                            },
                            total,
                        ),
                    ),
                    Option::None => Option::None,
                }
            } else {
                Option::None
            }
        },
        Option::None => Option::None,
    }
}

/// Round trip of the Pointer kind, whatever follows it in the buffer.
pub proof fn lemma_pointer_round_trip(p: types::Pointer, extra: Seq<u8>)
    ensures
        spec_pointer_dec(spec_pointer_pod(p) + extra) == Option::Some(
            (p, spec_pointer_pod(p).len() as int),
        ),
{
    lemma_auto_spec_u32_to_from_le_bytes();
    lemma_auto_spec_u64_to_from_le_bytes();
    let body = spec_u32_to_le_bytes(type_code(p.type_)) + spec_u32_to_le_bytes(0u32)
        + spec_u64_to_le_bytes(p.ptr);
    lemma_framed_round_trip(17, body, extra);
    assert(body.subrange(0, 4) =~= spec_u32_to_le_bytes(type_code(p.type_)));
    assert(body.subrange(8, 16) =~= spec_u64_to_le_bytes(p.ptr));
    types::lemma_type_code_round_trip(p.type_);
}

} // verus!

verus! {

/// The concatenated body serializations of a run of fixed-size values: the
/// element bodies in order, with no per-element headers.
pub open spec fn spec_bodies<T: Primitive>(s: Seq<T>) -> Seq<u8>
    decreases s.len(),
{
    if s.len() == 0 {
        Seq::empty()
    } else {
        spec_bodies(s.drop_last()) + s.last().prim_body()
    }
}

/// Total length of a run of bodies.
pub proof fn lemma_bodies_len<T: Primitive>(s: Seq<T>)
    ensures
        spec_bodies(s).len() == s.len() * T::prim_size(),
    decreases s.len(),
{
    if s.len() == 0 {
    } else {
        lemma_bodies_len::<T>(s.drop_last());
        s.last().lemma_prim_facts();
        assert(s.len() * T::prim_size() == (s.len() - 1) * T::prim_size() + T::prim_size())
            by (nonlinear_arith);
    }
}

/// Each element's body sits at its stride inside the run.
pub proof fn lemma_bodies_index<T: Primitive>(s: Seq<T>, i: int)
    requires
        0 <= i < s.len(),
    ensures
        spec_bodies(s).subrange(i * T::prim_size(), (i + 1) * T::prim_size()) == s[i].prim_body(),
    decreases s.len(),
{
    lemma_bodies_len::<T>(s);
    lemma_bodies_len::<T>(s.drop_last());
    s.last().lemma_prim_facts();
    let sz = T::prim_size();
    if i == s.len() - 1 {
        assert(i * sz == (s.len() - 1) * sz) by (nonlinear_arith)
            requires i == s.len() - 1;
        assert(spec_bodies(s).subrange(i * sz, (i + 1) * sz) =~= s[i].prim_body());
    } else {
        lemma_bodies_index::<T>(s.drop_last(), i);
        assert(0 <= i * sz && (i + 1) * sz <= (s.len() - 1) * sz) by (nonlinear_arith)
            requires 0 <= i < s.len() - 1, sz >= 0;
        assert(spec_bodies(s).subrange(i * sz, (i + 1) * sz) =~= spec_bodies(
            s.drop_last(),
        ).subrange(i * sz, (i + 1) * sz));
        assert(s[i] == s.drop_last()[i]);
    }
}

/// The serialization of an Array POD: a uniform child size and child kind,
/// then the element bodies with no per-element headers.
pub open spec fn spec_array_pod<T: Primitive>(s: Seq<T>) -> Seq<u8> {
    spec_pod(
        13,
        spec_u32_to_le_bytes(T::prim_size() as u32) + spec_u32_to_le_bytes(T::prim_kind())
            + spec_bodies(s),
    )
}

/// Decoding of an Array POD: the child size and kind must match the element
/// type, and the element run must divide evenly into bodies.
pub open spec fn spec_array_dec<T: Primitive>(data: Seq<u8>) -> Option<(Seq<T>, int)> {
    match spec_framed_dec(data, 13) {
        Option::Some((body, total)) => {
            if body.len() >= 8 {
                let child_size = spec_u32_from_le_bytes(body.subrange(0, 4)) as int;
                let child_kind = spec_u32_from_le_bytes(body.subrange(4, 8));
                let elems = body.len() - 8;
                if child_size == T::prim_size() && child_kind == T::prim_kind() && child_size > 0
                    && elems % child_size == 0 {
                    Option::Some(
                        (
                            Seq::new(
                                (elems / child_size) as nat,
                                |i: int|
                                    T::prim_dec(
                                        body.subrange(8 + i * child_size, 8 + (i + 1) * child_size),
                                    ),
                            ),
                            total,
                        ),
                    )
                } else {
                    Option::None
                }
            } else {
                Option::None
            }
        },
        Option::None => Option::None,
    }
}

/// Array uniformity: a decoded array's element count times the child size,
/// plus the child header, equals the declared body size.
pub proof fn lemma_array_uniform<T: Primitive>(data: Seq<u8>, s: Seq<T>, total: int)
    requires
        spec_array_dec::<T>(data) == Option::Some((s, total)),
    ensures
        s.len() * T::prim_size() + 8 == spec_u32_from_le_bytes(data.subrange(0, 4)) as int,
{
    let body = spec_framed_dec(data, 13).unwrap().0;
    let elems = body.len() - 8;
    assert((elems / T::prim_size()) * T::prim_size() == elems) by (nonlinear_arith)
        requires T::prim_size() > 0, elems >= 0, elems % T::prim_size() == 0;
}

/// Round trip of the Array kind, whatever follows it in the buffer; empty
/// arrays are legal and decode to an empty run.
pub proof fn lemma_array_round_trip<T: Primitive>(s: Seq<T>, witness: T, extra: Seq<u8>)
    requires
        8 + s.len() * T::prim_size() <= u32::MAX,
    ensures
        spec_array_dec::<T>(spec_array_pod(s) + extra) == Option::Some(
            (s, spec_array_pod(s).len() as int),
        ),
{
    witness.lemma_prim_facts();
    lemma_bodies_len::<T>(s);
    lemma_auto_spec_u32_to_from_le_bytes();
    let sz = T::prim_size();
    assert(s.len() * sz >= 0) by (nonlinear_arith)
        requires s.len() >= 0, sz >= 0;
    let hdr = spec_u32_to_le_bytes(sz as u32) + spec_u32_to_le_bytes(T::prim_kind());
    let body = hdr + spec_bodies(s);
    lemma_framed_round_trip(13, body, extra);
    lemma_auto_spec_u32_to_from_le_bytes();
    assert(body.subrange(0, 4) =~= spec_u32_to_le_bytes(sz as u32));
    assert(body.subrange(4, 8) =~= spec_u32_to_le_bytes(T::prim_kind()));
    let elems = body.len() - 8;
    assert(elems == s.len() * sz);
    assert(elems % sz == 0 && elems / sz == s.len()) by (nonlinear_arith)
        requires sz > 0, elems == s.len() * sz, s.len() >= 0;
    let dec = Seq::new(
        s.len() as nat,
        |i: int| T::prim_dec(body.subrange(8 + i * sz, 8 + (i + 1) * sz)),
    );
    assert forall|i: int| 0 <= i < s.len() implies dec[i] == s[i] by {
        lemma_bodies_index::<T>(s, i);
        assert(0 <= i * sz && (i + 1) * sz <= s.len() * sz) by (nonlinear_arith)
            requires 0 <= i < s.len(), sz > 0;
        assert(body.subrange(8 + i * sz, 8 + (i + 1) * sz) =~= spec_bodies(s).subrange(
            i * sz,
            (i + 1) * sz,
        ));
        s[i].lemma_prim_facts();
    }
    assert(dec =~= s);
}

} // verus!

verus! {

/// Mathematical model of a Choice value: as `types::Choice`, with the
/// alternatives of an Enum as a sequence.
pub enum SpecChoice<T> {
    NoneVal { value: T },
    Range { default: T, min: T, max: T },
    Step { default: T, min: T, max: T, step: T },
    Enum { default: T, alternatives: Seq<T> },
    Flags { default: T, flags: T },
}

/// The model of an owned Choice value.
pub open spec fn choice_view<T: Primitive>(c: types::Choice<T>) -> SpecChoice<T> {
    match c {
        types::Choice::NoneVal(value) => SpecChoice::NoneVal { value },
        types::Choice::Range { default, min, max } => SpecChoice::Range { default, min, max },
        types::Choice::Step { default, min, max, step } => SpecChoice::Step {
            default,
            min,
            max,
            step,
        },
        types::Choice::Enum { default, alternatives } => SpecChoice::Enum {
            default,
            alternatives: alternatives@,
        },
        types::Choice::Flags { default, flags } => SpecChoice::Flags { default, flags },
    }
}

/// The numeric code of a choice variant.
pub open spec fn spec_choice_code<T>(c: SpecChoice<T>) -> u32 {
    match c {
        SpecChoice::NoneVal { .. } => 0,
        SpecChoice::Range { .. } => 1,
        SpecChoice::Step { .. } => 2,
        SpecChoice::Enum { .. } => 3,
        SpecChoice::Flags { .. } => 4,
    }
}

/// The value run of a Choice body: the variant's values in order, with the
/// default first.
pub open spec fn spec_choice_vals<T: Primitive>(c: SpecChoice<T>) -> Seq<u8> {
    match c {
        SpecChoice::NoneVal { value } => value.prim_body(),
        SpecChoice::Range { default, min, max } => default.prim_body() + min.prim_body()
            + max.prim_body(),
        SpecChoice::Step { default, min, max, step } => default.prim_body() + min.prim_body()
            + max.prim_body() + step.prim_body(),
        SpecChoice::Enum { default, alternatives } => default.prim_body() + spec_bodies(
            alternatives,
        ),
        SpecChoice::Flags { default, flags } => default.prim_body() + flags.prim_body(),
    }
}

/// The serialization of a Choice POD: the variant code, an unused flags
/// word, the child size and kind, then the value run.
pub open spec fn spec_choice_pod<T: Primitive>(c: SpecChoice<T>) -> Seq<u8> {
    spec_pod(
        19,
        spec_u32_to_le_bytes(spec_choice_code(c)) + spec_u32_to_le_bytes(0u32)
            + spec_u32_to_le_bytes(T::prim_size() as u32) + spec_u32_to_le_bytes(T::prim_kind())
            + spec_choice_vals(c),
    )
}

/// Decoding of a Choice POD: the child size and kind must match the element
/// type; fixed-arity variants must declare exactly their value run; an Enum
/// carries a default and any number of alternatives.
pub open spec fn spec_choice_dec<T: Primitive>(data: Seq<u8>) -> Option<(SpecChoice<T>, int)> {
    match spec_framed_dec(data, 19) {
        Option::Some((body, total)) => {
            if body.len() >= 16 {
                let variant = spec_u32_from_le_bytes(body.subrange(0, 4));
                let child_size = spec_u32_from_le_bytes(body.subrange(8, 12)) as int;
                let child_kind = spec_u32_from_le_bytes(body.subrange(12, 16));
                let sz = T::prim_size();
                let vals = body.len() - 16;
                if child_size == sz && child_kind == T::prim_kind() && child_size > 0 {
                    if variant == 0 && vals == sz {
                        Option::Some(
                            (
                                SpecChoice::NoneVal {
                                    value: T::prim_dec(body.subrange(16, 16 + sz)),
                                },
                                total,
                            ),
                        )
                    } else if variant == 1 && vals == 3 * sz {
                        Option::Some(
                            (
                                SpecChoice::Range {
                                    default: T::prim_dec(body.subrange(16, 16 + sz)),
                                    min: T::prim_dec(body.subrange(16 + sz, 16 + 2 * sz)),
                                    max: T::prim_dec(body.subrange(16 + 2 * sz, 16 + 3 * sz)),
                                },
                                total,
                            ),
                        )
                    } else if variant == 2 && vals == 4 * sz {
                        Option::Some(
                            (
                                SpecChoice::Step {
                                    default: T::prim_dec(body.subrange(16, 16 + sz)),
                                    min: T::prim_dec(body.subrange(16 + sz, 16 + 2 * sz)),
                                    max: T::prim_dec(body.subrange(16 + 2 * sz, 16 + 3 * sz)),
                                    step: T::prim_dec(body.subrange(16 + 3 * sz, 16 + 4 * sz)),
                                },
                                total,
                            ),
                        )
                    } else if variant == 3 && vals >= sz && vals % sz == 0 {
                        Option::Some(
                            (
                                SpecChoice::Enum {
                                    default: T::prim_dec(body.subrange(16, 16 + sz)),
                                    alternatives: Seq::new(
                                        ((vals - sz) / sz) as nat,
                                        |i: int|
                                            T::prim_dec(
                                                body.subrange(
                                                    16 + (i + 1) * sz,
                                                    16 + (i + 2) * sz,
                                                ),
                                            ),
                                    ),
                                },
                                total,
                            ),
                        )
                    } else if variant == 4 && vals == 2 * sz {
                        Option::Some(
                            (
                                SpecChoice::Flags {
                                    default: T::prim_dec(body.subrange(16, 16 + sz)),
                                    flags: T::prim_dec(body.subrange(16 + sz, 16 + 2 * sz)),
                                },
                                total,
                            ),
                        )
                    } else {
                        Option::None
                    }
                } else {
                    Option::None
                }
            } else {
                Option::None
            }
        },
        Option::None => Option::None,
    }
}

/// Choice size discipline: when the frame, the variant word and the child
/// header all match, a Range or Flags choice decodes only if the declared
/// body size is exactly the header plus the variant's arity times the child
/// size; otherwise decoding fails.
pub proof fn lemma_choice_size_discipline<T: Primitive>(data: Seq<u8>, body: Seq<u8>, total: int)
    requires
        spec_framed_dec(data, 19) == Option::Some((body, total)),
        body.len() >= 16,
        spec_u32_from_le_bytes(body.subrange(8, 12)) == T::prim_size(),
        spec_u32_from_le_bytes(body.subrange(12, 16)) == T::prim_kind(),
    ensures
        spec_u32_from_le_bytes(body.subrange(0, 4)) == 1 && body.len() != 16 + 3 * T::prim_size()
            ==> spec_choice_dec::<T>(data) is None,
        spec_u32_from_le_bytes(body.subrange(0, 4)) == 4 && body.len() != 16 + 2 * T::prim_size()
            ==> spec_choice_dec::<T>(data) is None,
{
}

/// Round trip of the Choice kind, whatever follows it in the buffer.
pub proof fn lemma_choice_round_trip<T: Primitive>(c: SpecChoice<T>, witness: T, extra: Seq<u8>)
    requires
        spec_choice_vals(c).len() + 16 <= u32::MAX,
    ensures
        spec_choice_dec::<T>(spec_choice_pod(c) + extra) == Option::Some(
            (c, spec_choice_pod(c).len() as int),
        ),
{
    witness.lemma_prim_facts();
    lemma_auto_spec_u32_to_from_le_bytes();
    let sz = T::prim_size();
    let body = spec_u32_to_le_bytes(spec_choice_code(c)) + spec_u32_to_le_bytes(0u32)
        + spec_u32_to_le_bytes(sz as u32) + spec_u32_to_le_bytes(T::prim_kind())
        + spec_choice_vals(c);
    lemma_framed_round_trip(19, body, extra);
    assert(body.subrange(0, 4) =~= spec_u32_to_le_bytes(spec_choice_code(c)));
    assert(body.subrange(8, 12) =~= spec_u32_to_le_bytes(sz as u32));
    assert(body.subrange(12, 16) =~= spec_u32_to_le_bytes(T::prim_kind()));
    match c {
        SpecChoice::NoneVal { value } => {
            value.lemma_prim_facts();
            assert(body.subrange(16, 16 + sz) =~= value.prim_body());
        },
        SpecChoice::Range { default, min, max } => {
            default.lemma_prim_facts();
            min.lemma_prim_facts();
            max.lemma_prim_facts();
            assert(body.subrange(16, 16 + sz) =~= default.prim_body());
            assert(body.subrange(16 + sz, 16 + 2 * sz) =~= min.prim_body());
            assert(body.subrange(16 + 2 * sz, 16 + 3 * sz) =~= max.prim_body());
        },
        SpecChoice::Step { default, min, max, step } => {
            default.lemma_prim_facts();
            min.lemma_prim_facts();
            max.lemma_prim_facts();
            step.lemma_prim_facts();
            assert(body.subrange(16, 16 + sz) =~= default.prim_body());
            assert(body.subrange(16 + sz, 16 + 2 * sz) =~= min.prim_body());
            assert(body.subrange(16 + 2 * sz, 16 + 3 * sz) =~= max.prim_body());
            assert(body.subrange(16 + 3 * sz, 16 + 4 * sz) =~= step.prim_body());
        },
        SpecChoice::Enum { default, alternatives } => {
            default.lemma_prim_facts();
            lemma_bodies_len::<T>(alternatives);
            let n = alternatives.len() as int;
            let vals = body.len() - 16;
            assert(vals == sz + n * sz);
            assert(vals % sz == 0 && (vals - sz) / sz == n) by (nonlinear_arith)
                requires sz > 0, n >= 0, vals == sz + n * sz;
            assert(body.subrange(16, 16 + sz) =~= default.prim_body());
            let dec_alts = Seq::new(
                n as nat,
                |i: int| T::prim_dec(body.subrange(16 + (i + 1) * sz, 16 + (i + 2) * sz)),
            );
            assert forall|i: int| 0 <= i < n implies dec_alts[i] == alternatives[i] by {
                lemma_bodies_index::<T>(alternatives, i);
                assert(0 <= i * sz && (i + 1) * sz <= n * sz) by (nonlinear_arith)
                    requires 0 <= i < n, sz > 0;
                assert((i + 2) * sz == (i + 1) * sz + sz) by (nonlinear_arith);
                assert(body.subrange(16 + (i + 1) * sz, 16 + (i + 2) * sz) =~= spec_bodies(
                    alternatives,
                ).subrange(i * sz, (i + 1) * sz));
                alternatives[i].lemma_prim_facts();
            }
            assert(dec_alts =~= alternatives);
        },
        SpecChoice::Flags { default, flags } => {
            default.lemma_prim_facts();
            flags.lemma_prim_facts();
            assert(body.subrange(16, 16 + sz) =~= default.prim_body());
            assert(body.subrange(16 + sz, 16 + 2 * sz) =~= flags.prim_body());
        },
    }
}

} // verus!

verus! {

/// The serialization of an Object POD: the object kind, the parameter kind,
/// then a run of properties.
pub open spec fn spec_object_pod(otype: u32, ptype: u32, props: Seq<u8>) -> Seq<u8> {
    spec_pod(15, spec_u32_to_le_bytes(otype) + spec_u32_to_le_bytes(ptype) + props)
}

/// The serialization of one object property: key, flags, then the complete
/// value POD.
pub open spec fn spec_prop(key: u32, flags: u32, value_pod: Seq<u8>) -> Seq<u8> {
    spec_u32_to_le_bytes(key) + spec_u32_to_le_bytes(flags) + value_pod
}

/// Decoding of an Object POD frame: the object kind word, the parameter
/// kind word, and the property run, with the bytes consumed.
pub open spec fn spec_object_dec(data: Seq<u8>) -> Option<((u32, u32, Seq<u8>), int)> {
    match spec_framed_dec(data, 15) {
        Option::Some((body, total)) => {
            if body.len() >= 8 {
                Option::Some(
                    (
                        (
                            spec_u32_from_le_bytes(body.subrange(0, 4)),
                            spec_u32_from_le_bytes(body.subrange(4, 8)),
                            body.skip(8),
                        ),
                        total,
                    ),
                )
            } else {
                Option::None
            }
        },
        Option::None => Option::None,
    }
}

/// Round trip of the Object frame, whatever follows it in the buffer.
pub proof fn lemma_object_round_trip(otype: u32, ptype: u32, props: Seq<u8>, extra: Seq<u8>)
    requires
        8 + props.len() <= u32::MAX,
    ensures
        spec_object_dec(spec_object_pod(otype, ptype, props) + extra) == Option::Some(
            ((otype, ptype, props), spec_object_pod(otype, ptype, props).len() as int),
        ),
{
    lemma_auto_spec_u32_to_from_le_bytes();
    let body = spec_u32_to_le_bytes(otype) + spec_u32_to_le_bytes(ptype) + props;
    lemma_framed_round_trip(15, body, extra);
    assert(body.subrange(0, 4) =~= spec_u32_to_le_bytes(otype));
    assert(body.subrange(4, 8) =~= spec_u32_to_le_bytes(ptype));
    assert(body.skip(8) =~= props);
}

/// A well-formed property triple: the flag word holds only defined bits and
/// the value slice is one complete POD, padding included.
pub open spec fn spec_prop_wf(p: (u32, u32, Seq<u8>)) -> bool {
    &&& p.1 & !0xF == 0
    &&& p.2.len() >= 8
    &&& {
        let vsize = spec_u32_from_le_bytes(p.2.subrange(0, 4)) as int;
        p.2.len() == 8 + vsize + spec_pad_8(vsize)
    }
}

/// Decoding of one property from the front of a property run: the raw key,
/// the flag word, and the length-validated value POD slice, with the bytes
/// consumed. The key is surfaced raw, whether or not it is a known key of
/// the object kind.
pub open spec fn spec_prop_dec(data: Seq<u8>) -> Option<((u32, u32, Seq<u8>), int)> {
    if data.len() >= 16 {
        let key = spec_u32_from_le_bytes(data.subrange(0, 4));
        let flags = spec_u32_from_le_bytes(data.subrange(4, 8));
        let value = data.skip(8);
        let vsize = spec_u32_from_le_bytes(value.subrange(0, 4)) as int;
        let vtotal = 8 + vsize + spec_pad_8(vsize);
        if flags & !0xF == 0 && value.len() >= vtotal {
            Option::Some(((key, flags, value.subrange(0, vtotal)), 8 + vtotal))
        } else {
            Option::None
        }
    } else {
        Option::None
    }
}

/// One step of property iteration: a well-formed property at the front of a
/// run is returned whole, whatever its key and whatever follows it.
pub proof fn lemma_prop_step(p: (u32, u32, Seq<u8>), rest: Seq<u8>)
    requires
        spec_prop_wf(p),
    ensures
        spec_prop_dec(spec_prop(p.0, p.1, p.2) + rest) == Option::Some((p, 8 + p.2.len() as int)),
{
    lemma_auto_spec_u32_to_from_le_bytes();
    let data = spec_prop(p.0, p.1, p.2) + rest;
    assert(data.subrange(0, 4) =~= spec_u32_to_le_bytes(p.0));
    assert(data.subrange(4, 8) =~= spec_u32_to_le_bytes(p.1));
    let value = data.skip(8);
    assert(value.subrange(0, 4) =~= p.2.subrange(0, 4));
    assert(value.subrange(0, p.2.len() as int) =~= p.2);
}

/// The serialization of a run of properties.
pub open spec fn spec_props_bytes(props: Seq<(u32, u32, Seq<u8>)>) -> Seq<u8>
    decreases props.len(),
{
    if props.len() == 0 {
        Seq::empty()
    } else {
        spec_prop(props.first().0, props.first().1, props.first().2) + spec_props_bytes(
            props.drop_first(),
        )
    }
}

/// Decoding of a whole property run, in order, to its end.
pub open spec fn spec_props_dec(data: Seq<u8>) -> Option<Seq<(u32, u32, Seq<u8>)>>
    decreases data.len(),
{
    if data.len() == 0 {
        Option::Some(Seq::empty())
    } else {
        match spec_prop_dec(data) {
            Option::Some((p, n)) => {
                if 0 < n <= data.len() {
                    match spec_props_dec(data.skip(n)) {
                        Option::Some(rest) => Option::Some(seq![p] + rest),
                        Option::None => Option::None,
                    }
                } else {
                    Option::None
                }
            },
            Option::None => Option::None,
        }
    }
}

/// Object tolerance and round trip of the property run: a run of
/// well-formed properties reads back exactly, in order, whatever the keys
/// hold — an unknown key is surfaced raw, never rejected.
pub proof fn lemma_props_round_trip(props: Seq<(u32, u32, Seq<u8>)>)
    requires
        forall|i: int| 0 <= i < props.len() ==> spec_prop_wf(#[trigger] props[i]),
    ensures
        spec_props_dec(spec_props_bytes(props)) == Option::Some(props),
    decreases props.len(),
{
    lemma_auto_spec_u32_to_from_le_bytes();
    if props.len() == 0 {
        assert(spec_props_dec(spec_props_bytes(props)) == Option::Some(Seq::<(u32, u32, Seq<u8>)>::empty()));
        assert(props =~= Seq::<(u32, u32, Seq<u8>)>::empty());
    } else {
        let p = props.first();
        let rest = props.drop_first();
        let rest_bytes = spec_props_bytes(rest);
        lemma_prop_step(p, rest_bytes);
        assert(forall|i: int| 0 <= i < rest.len() ==> spec_prop_wf(#[trigger] rest[i]));
        lemma_props_round_trip(rest);
        let data = spec_props_bytes(props);
        let n = 8 + p.2.len() as int;
        assert(data.len() == n + rest_bytes.len());
        assert(data.skip(n) =~= rest_bytes);
        assert(seq![p] + rest =~= props);
    }
}

} // verus!

verus! {

/// Decoding of a None POD: an empty body of the None kind.
pub open spec fn spec_none_dec(data: Seq<u8>) -> Option<((), int)> {
    if data.len() >= 8 && spec_u32_from_le_bytes(data.subrange(0, 4)) == 0
        && spec_u32_from_le_bytes(data.subrange(4, 8)) == 1 {
        Option::Some(((), 8))
    } else {
        Option::None
    }
}

/// Round trip of the None kind, whatever follows it in the buffer.
pub proof fn lemma_none_round_trip(extra: Seq<u8>)
    ensures
        spec_none_dec(spec_pod(1u32, Seq::empty()) + extra) == Option::Some(((), 8int)),
{
    lemma_pod_layout(1u32, Seq::empty());
    lemma_auto_spec_u32_to_from_le_bytes();
    let enc = spec_pod(1u32, Seq::empty());
    let data = enc + extra;
    assert(data.subrange(0, 4) =~= enc.subrange(0, 4));
    assert(data.subrange(4, 8) =~= enc.subrange(4, 8));
}

} // verus!

verus! {

/// A value that serializes as one complete POD, header and padding
/// included. Every fixed-size kind is one; the variable-size kinds go
/// through the builder and parser, which frame them.
pub trait Pod: Sized {
    /// The complete serialization of this value.
    spec fn pod_bytes(self) -> Seq<u8>;

    /// Decoding of one value of this kind from the front of `data`.
    spec fn pod_dec(data: Seq<u8>) -> Option<(Self, int)>;

    /// Append the complete serialization of this value.
    fn encode(&self, out: &mut Vec<u8>)
        ensures
            final(out)@ == old(out)@ + self.pod_bytes(),
    ;

    /// Read one value of this kind from the front of `data`, with the
    /// bytes consumed.
    fn decode(data: &[u8]) -> (r: Result<(Self, usize), crate::error::Error>)
        ensures
            match Self::pod_dec(data@) {
                Option::Some((v, n)) => r matches Ok(p) && p.0 == v && p.1 == n,
                Option::None => r matches Err(e) && e == crate::error::Error::Invalid,
            },
    ;
}

impl<T: Primitive> Pod for T {
    open spec fn pod_bytes(self) -> Seq<u8> {
        spec_prim_pod(self)
    }

    open spec fn pod_dec(data: Seq<u8>) -> Option<(Self, int)> {
        spec_prim_dec::<T>(data)
    }

    fn encode(&self, out: &mut Vec<u8>) {
        proof {
            self.lemma_prim_facts();
        }
        let size = T::pod_size();
        let mut hdr = u32_to_le_bytes(size as u32);
        out.append(&mut hdr);
        let t = T::pod_type();
        let mut kind = u32_to_le_bytes(t.to_u32());
        out.append(&mut kind);
        self.encode_body(out);
        let pad = pad_8(size);
        let ghost before = out@;
        let mut i: usize = 0;
        while i < pad
            invariant
                i <= pad,
                out@ == before + zeros(i as int),
            decreases pad - i,
        {
            out.push(0u8);
            proof {
                assert(before + zeros(i + 1) =~= (before + zeros(i as int)).push(0u8));
            }
            i += 1;
        }
        proof {
            assert(out@ =~= old(out)@ + spec_prim_pod(*self));
        }
    }

    fn decode(data: &[u8]) -> (r: Result<(Self, usize), crate::error::Error>) {
        proof {
            lemma_auto_spec_u32_to_from_le_bytes();
        }
        let size = T::pod_size();
        let pad = pad_8(size);
        let total = 8 + size + pad;
        if data.len() < total {
            return Err(crate::error::Error::Invalid);
        }
        let s = u32_from_le_bytes(slice_subrange(data, 0, 4));
        if s as u64 != size as u64 {
            return Err(crate::error::Error::Invalid);
        }
        let t = T::pod_type();
        let k = u32_from_le_bytes(slice_subrange(data, 4, 8));
        if k != t.to_u32() {
            return Err(crate::error::Error::Invalid);
        }
        let v = T::decode_body(slice_subrange(data, 8, 8 + size));
        Ok((v, total))
    }
}

} // verus!
