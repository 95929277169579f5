//! Forward-only POD reader over a byte slice. Each `pop_*` advances past a
//! complete POD on success and leaves the cursor in place on failure.

use vstd::prelude::*;
use vstd::bytes::{u32_from_le_bytes, u64_from_le_bytes};
use vstd::slice::{slice_subrange, slice_to_vec};

use crate::error::Error;
use crate::pod::types::{Choice, Double, Fd, Float, Fraction, Id, ObjectType, Pointer,
    PropertyFlags, Rectangle, Type};
use crate::pod::{pad_8, spec_framed_dec, spec_none_dec, spec_prim_dec, Primitive};

verus! {

/// A forward reader: the slice and the cursor.
pub struct Parser<'a> {
    pub data: &'a [u8],
    pub pos: usize,
}

impl<'a> Parser<'a> {
    /// Well-formedness: the cursor is within the slice.
    pub open spec fn wf(self) -> bool {
        self.pos <= self.data@.len()
    }

    /// The bytes not yet consumed.
    pub open spec fn remaining(self) -> Seq<u8> {
        self.data@.skip(self.pos as int)
    }
}

/// What one pop leaves behind: on a decode of the remaining bytes the value
/// and an advanced cursor, otherwise `Invalid` with the cursor unmoved.
pub open spec fn pop_result<V>(
    pre: Parser,
    post: Parser,
    dec: Option<(V, int)>,
    r: Result<V, Error>,
) -> bool {
    &&& post.data@ == pre.data@
    &&& match dec {
        Option::Some((v, n)) => {
            &&& r matches Ok(rv) && rv == v
            &&& post.pos == pre.pos + n
        },
        Option::None => {
            &&& r matches Err(e) && e == Error::Invalid
            &&& post.pos == pre.pos
        },
    }
}

impl<'a> Parser<'a> {
    /// A fresh reader over the caller's bytes.
    pub fn new(data: &'a [u8]) -> (r: Parser<'a>)
        ensures
            r.data@ == data@,
            r.pos == 0,
            r.wf(),
    {
        Parser { data, pos: 0 }
    }

    /// Pop one fixed-size POD.
    pub fn pop_pod<T: Primitive>(&mut self) -> (r: Result<T, Error>)
        requires
            old(self).wf(),
        ensures
            pop_result(*old(self), *final(self), spec_prim_dec::<T>(old(self).remaining()), r),
            final(self).wf(),
    {
        proof {
            vstd::bytes::lemma_auto_spec_u32_to_from_le_bytes();
        }
        let size = T::pod_size();
        let pad = pad_8(size);
        let total = 8 + size + pad;
        let rem = self.data.len() - self.pos;
        if rem < total {
            return Err(Error::Invalid);
        }
        let ghost r0 = self.remaining();
        proof {
            assert(self.data@.subrange(self.pos as int, self.pos + 4) =~= r0.subrange(0, 4));
            assert(self.data@.subrange(self.pos + 4, self.pos + 8) =~= r0.subrange(4, 8));
            assert(self.data@.subrange(self.pos + 8, self.pos + 8 + size as int) =~= r0.subrange(
                8,
                8 + size as int,
            ));
        }
        let s = u32_from_le_bytes(slice_subrange(self.data, self.pos, self.pos + 4));
        if s as u64 != size as u64 {
            return Err(Error::Invalid);
        }
        let t = T::pod_type();
        let k = u32_from_le_bytes(slice_subrange(self.data, self.pos + 4, self.pos + 8));
        if k != t.to_u32() {
            return Err(Error::Invalid);
        }
        let v = T::decode_body(slice_subrange(self.data, self.pos + 8, self.pos + 8 + size));
        self.pos = self.pos + total;
        Ok(v)
    }

    /// Pop a None POD.
    pub fn pop_none(&mut self) -> (r: Result<(), Error>)
        requires
            old(self).wf(),
        ensures
            pop_result(*old(self), *final(self), spec_none_dec(old(self).remaining()), r),
            final(self).wf(),
    {
        proof {
            vstd::bytes::lemma_auto_spec_u32_to_from_le_bytes();
        }
        let rem = self.data.len() - self.pos;
        if rem < 8 {
            return Err(Error::Invalid);
        }
        let ghost r0 = self.remaining();
        proof {
            assert(self.data@.subrange(self.pos as int, self.pos + 4) =~= r0.subrange(0, 4));
            assert(self.data@.subrange(self.pos + 4, self.pos + 8) =~= r0.subrange(4, 8));
        }
        let s = u32_from_le_bytes(slice_subrange(self.data, self.pos, self.pos + 4));
        if s != 0 {
            return Err(Error::Invalid);
        }
        let k = u32_from_le_bytes(slice_subrange(self.data, self.pos + 4, self.pos + 8));
        if k != 1 {
            return Err(Error::Invalid);
        }
        self.pos = self.pos + 8;
        Ok(())
    }

    /// Pop a Bool POD.
    pub fn pop_bool(&mut self) -> (r: Result<bool, Error>)
        requires
            old(self).wf(),
        ensures
            pop_result(*old(self), *final(self), spec_prim_dec::<bool>(old(self).remaining()), r),
            final(self).wf(),
    {
        self.pop_pod::<bool>()
    }

    /// Pop an Id POD. The enumerator comes back raw; whether it names a
    /// known value of some enumeration is the caller's question, put to
    /// that enumeration's own code conversion.
    pub fn pop_id(&mut self) -> (r: Result<Id, Error>)
        requires
            old(self).wf(),
        ensures
            pop_result(*old(self), *final(self), spec_prim_dec::<Id>(old(self).remaining()), r),
            final(self).wf(),
    {
        self.pop_pod::<Id>()
    }

    /// Pop an Int POD.
    pub fn pop_int(&mut self) -> (r: Result<i32, Error>)
        requires
            old(self).wf(),
        ensures
            pop_result(*old(self), *final(self), spec_prim_dec::<i32>(old(self).remaining()), r),
            final(self).wf(),
    {
        self.pop_pod::<i32>()
    }

    /// Pop a Long POD.
    pub fn pop_long(&mut self) -> (r: Result<i64, Error>)
        requires
            old(self).wf(),
        ensures
            pop_result(*old(self), *final(self), spec_prim_dec::<i64>(old(self).remaining()), r),
            final(self).wf(),
    {
        self.pop_pod::<i64>()
    }

    /// Pop a Float POD, returned by its bit pattern.
    pub fn pop_float(&mut self) -> (r: Result<Float, Error>)
        requires
            old(self).wf(),
        ensures
            pop_result(*old(self), *final(self), spec_prim_dec::<Float>(old(self).remaining()), r),
            final(self).wf(),
    {
        self.pop_pod::<Float>()
    }

    /// Pop a Double POD, returned by its bit pattern.
    pub fn pop_double(&mut self) -> (r: Result<Double, Error>)
        requires
            old(self).wf(),
        ensures
            pop_result(
                *old(self),
                *final(self),
                spec_prim_dec::<Double>(old(self).remaining()),
                r,
            ),
            final(self).wf(),
    {
        self.pop_pod::<Double>()
    }

    /// Pop an Fd POD.
    pub fn pop_fd(&mut self) -> (r: Result<Fd, Error>)
        requires
            old(self).wf(),
        ensures
            pop_result(*old(self), *final(self), spec_prim_dec::<Fd>(old(self).remaining()), r),
            final(self).wf(),
    {
        self.pop_pod::<Fd>()
    }

    /// Pop a Rectangle POD.
    pub fn pop_rectangle(&mut self) -> (r: Result<Rectangle, Error>)
        requires
            old(self).wf(),
        ensures
            pop_result(
                *old(self),
                *final(self),
                spec_prim_dec::<Rectangle>(old(self).remaining()),
                r,
            ),
            final(self).wf(),
    {
        self.pop_pod::<Rectangle>()
    }

    /// Pop a Fraction POD.
    pub fn pop_fraction(&mut self) -> (r: Result<Fraction, Error>)
        requires
            old(self).wf(),
        ensures
            pop_result(
                *old(self),
                *final(self),
                spec_prim_dec::<Fraction>(old(self).remaining()),
                r,
            ),
            final(self).wf(),
    {
        self.pop_pod::<Fraction>()
    }
}

} // verus!

verus! {

/// Relies on `String::from_utf8_lossy`: valid UTF-8 input is decoded to
/// exactly its scalar values.
#[verifier::external_body]
fn string_from_utf8_lossy(v: &[u8]) -> (r: String)
    ensures
        vstd::utf8::valid_utf8(v@) ==> r@ == vstd::utf8::decode_utf8(v@),
{
    String::from_utf8_lossy(v).to_string()
}

impl<'a> Parser<'a> {
    /// Pop a String POD: the terminating zero must be present; the bytes
    /// before it are returned as text, decoded exactly when they are valid
    /// UTF-8.
    pub fn pop_string(&mut self) -> (r: Result<String, Error>)
        requires
            old(self).wf(),
        ensures
            final(self).data@ == old(self).data@,
            final(self).wf(),
            match crate::pod::spec_string_dec(old(self).remaining()) {
                Option::Some((bytes, n)) => {
                    &&& r matches Ok(s)
                    &&& final(self).pos == old(self).pos + n
                    &&& vstd::utf8::valid_utf8(bytes) ==> (r matches Ok(s) && s@
                        == vstd::utf8::decode_utf8(bytes))
                },
                Option::None => {
                    &&& r matches Err(e) && e == Error::Invalid
                    &&& final(self).pos == old(self).pos
                },
            },
    {
        proof {
            vstd::bytes::lemma_auto_spec_u32_to_from_le_bytes();
        }
        let rem = self.data.len() - self.pos;
        if rem < 8 {
            return Err(Error::Invalid);
        }
        let ghost r0 = self.remaining();
        proof {
            assert(self.data@.subrange(self.pos as int, self.pos + 4) =~= r0.subrange(0, 4));
            assert(self.data@.subrange(self.pos + 4, self.pos + 8) =~= r0.subrange(4, 8));
        }
        let s32 = u32_from_le_bytes(slice_subrange(self.data, self.pos, self.pos + 4));
        let k = u32_from_le_bytes(slice_subrange(self.data, self.pos + 4, self.pos + 8));
        if k != 8 {
            return Err(Error::Invalid);
        }
        let rpad: u64 = (s32 as u64) % 8;
        let pad64: u64 = if rpad > 0 {
            8 - rpad
        } else {
            0
        };
        let total64: u64 = 8 + (s32 as u64) + pad64;
        if (rem as u64) < total64 {
            return Err(Error::Invalid);
        }
        if s32 == 0 {
            return Err(Error::Invalid);
        }
        let s = s32 as usize;
        let ghost body = r0.subrange(8, 8 + s as int);
        proof {
            assert(self.data@.subrange(self.pos + 8, self.pos + 8 + s as int) =~= body);
        }
        let last = self.data[self.pos + 8 + s - 1];
        if last != 0 {
            proof {
                assert(body.last() == r0[8 + s - 1]);
            }
            return Err(Error::Invalid);
        }
        let bytes = slice_subrange(self.data, self.pos + 8, self.pos + 8 + s - 1);
        proof {
            assert(body.last() == r0[8 + s - 1]);
            assert(bytes@ =~= body.drop_last());
        }
        let st = string_from_utf8_lossy(bytes);
        self.pos = self.pos + (total64 as usize);
        Ok(st)
    }

    /// Pop a Bytes POD.
    pub fn pop_bytes(&mut self) -> (r: Result<Vec<u8>, Error>)
        requires
            old(self).wf(),
        ensures
            final(self).data@ == old(self).data@,
            final(self).wf(),
            match crate::pod::spec_bytes_dec(old(self).remaining()) {
                Option::Some((bytes, n)) => {
                    &&& r matches Ok(v) && v@ == bytes
                    &&& final(self).pos == old(self).pos + n
                },
                Option::None => {
                    &&& r matches Err(e) && e == Error::Invalid
                    &&& final(self).pos == old(self).pos
                },
            },
    {
        proof {
            vstd::bytes::lemma_auto_spec_u32_to_from_le_bytes();
        }
        let rem = self.data.len() - self.pos;
        if rem < 8 {
            return Err(Error::Invalid);
        }
        let ghost r0 = self.remaining();
        proof {
            assert(self.data@.subrange(self.pos as int, self.pos + 4) =~= r0.subrange(0, 4));
            assert(self.data@.subrange(self.pos + 4, self.pos + 8) =~= r0.subrange(4, 8));
        }
        let s32 = u32_from_le_bytes(slice_subrange(self.data, self.pos, self.pos + 4));
        let k = u32_from_le_bytes(slice_subrange(self.data, self.pos + 4, self.pos + 8));
        if k != 9 {
            return Err(Error::Invalid);
        }
        let rpad: u64 = (s32 as u64) % 8;
        let pad64: u64 = if rpad > 0 {
            8 - rpad
        } else {
            0
        };
        let total64: u64 = 8 + (s32 as u64) + pad64;
        if (rem as u64) < total64 {
            return Err(Error::Invalid);
        }
        let s = s32 as usize;
        let bytes = slice_subrange(self.data, self.pos + 8, self.pos + 8 + s);
        proof {
            assert(bytes@ =~= r0.subrange(8, 8 + s as int));
        }
        let v = slice_to_vec(bytes);
        self.pos = self.pos + (total64 as usize);
        Ok(v)
    }

    /// Pop a Pointer POD: the pointee kind must be a known code.
    pub fn pop_pointer(&mut self) -> (r: Result<Pointer, Error>)
        requires
            old(self).wf(),
        ensures
            pop_result(
                *old(self),
                *final(self),
                crate::pod::spec_pointer_dec(old(self).remaining()),
                r,
            ),
            final(self).wf(),
    {
        proof {
            vstd::bytes::lemma_auto_spec_u32_to_from_le_bytes();
            vstd::bytes::lemma_auto_spec_u64_to_from_le_bytes();
        }
        let rem = self.data.len() - self.pos;
        if rem < 8 {
            return Err(Error::Invalid);
        }
        let ghost r0 = self.remaining();
        proof {
            assert(self.data@.subrange(self.pos as int, self.pos + 4) =~= r0.subrange(0, 4));
            assert(self.data@.subrange(self.pos + 4, self.pos + 8) =~= r0.subrange(4, 8));
        }
        let s32 = u32_from_le_bytes(slice_subrange(self.data, self.pos, self.pos + 4));
        let k = u32_from_le_bytes(slice_subrange(self.data, self.pos + 4, self.pos + 8));
        if k != 17 || s32 != 16 {
            return Err(Error::Invalid);
        }
        if rem < 24 {
            return Err(Error::Invalid);
        }
        let ghost body = r0.subrange(8, 24);
        proof {
            assert(self.data@.subrange(self.pos + 8, self.pos + 12) =~= body.subrange(0, 4));
            assert(self.data@.subrange(self.pos + 16, self.pos + 24) =~= body.subrange(8, 16));
        }
        let tcode = u32_from_le_bytes(slice_subrange(self.data, self.pos + 8, self.pos + 12));
        let t = match Type::from_u32(tcode) {
            Option::Some(t) => t,
            Option::None => {
                return Err(Error::Invalid);
            },
        };
        let ptr = u64_from_le_bytes(slice_subrange(self.data, self.pos + 16, self.pos + 24));
        self.pos = self.pos + 24;
        Ok(Pointer { type_: t, ptr })
    }

    /// Pop an Array POD of a fixed-size element kind.
    pub fn pop_array<T: Primitive>(&mut self) -> (r: Result<Vec<T>, Error>)
        requires
            old(self).wf(),
        ensures
            final(self).data@ == old(self).data@,
            final(self).wf(),
            match crate::pod::spec_array_dec::<T>(old(self).remaining()) {
                Option::Some((s, n)) => {
                    &&& r matches Ok(v) && v@ == s
                    &&& final(self).pos == old(self).pos + n
                },
                Option::None => {
                    &&& r matches Err(e) && e == Error::Invalid
                    &&& final(self).pos == old(self).pos
                },
            },
    {
        proof {
            vstd::bytes::lemma_auto_spec_u32_to_from_le_bytes();
        }
        let rem = self.data.len() - self.pos;
        if rem < 8 {
            return Err(Error::Invalid);
        }
        let ghost r0 = self.remaining();
        proof {
            assert(self.data@.subrange(self.pos as int, self.pos + 4) =~= r0.subrange(0, 4));
            assert(self.data@.subrange(self.pos + 4, self.pos + 8) =~= r0.subrange(4, 8));
        }
        let s32 = u32_from_le_bytes(slice_subrange(self.data, self.pos, self.pos + 4));
        let k = u32_from_le_bytes(slice_subrange(self.data, self.pos + 4, self.pos + 8));
        if k != 13 {
            return Err(Error::Invalid);
        }
        let rpad: u64 = (s32 as u64) % 8;
        let pad64: u64 = if rpad > 0 {
            8 - rpad
        } else {
            0
        };
        let total64: u64 = 8 + (s32 as u64) + pad64;
        if (rem as u64) < total64 {
            return Err(Error::Invalid);
        }
        let ghost body = r0.subrange(8, 8 + s32 as int);
        if s32 < 8 {
            return Err(Error::Invalid);
        }
        proof {
            assert(self.data@.subrange(self.pos + 8, self.pos + 12) =~= body.subrange(0, 4));
            assert(self.data@.subrange(self.pos + 12, self.pos + 16) =~= body.subrange(4, 8));
        }
        let cs = u32_from_le_bytes(slice_subrange(self.data, self.pos + 8, self.pos + 12));
        let ck = u32_from_le_bytes(slice_subrange(self.data, self.pos + 12, self.pos + 16));
        let size = T::pod_size();
        let t = T::pod_type();
        if cs as u64 != size as u64 || ck != t.to_u32() {
            return Err(Error::Invalid);
        }
        let elems = (s32 as usize) - 8;
        if elems % size != 0 {
            return Err(Error::Invalid);
        }
        let n = elems / size;
        assert(n * size == elems) by (nonlinear_arith)
            requires
                size > 0,
                elems >= 0,
                elems % size == 0,
                n == elems / size,
        ;
        let ghost dec_seq = Seq::new(
            n as nat,
            |i: int| T::prim_dec(body.subrange(8 + i * size as int, 8 + (i + 1) * size as int)),
        );
        let mut out: Vec<T> = Vec::new();
        let dlen = self.data.len();
        let mut i: usize = 0;
        while i < n
            invariant
                i <= n,
                n * size == elems,
                elems + 8 == s32,
                size == T::prim_size(),
                size == 4 || size == 8,
                self.pos + 8 + s32 <= self.data@.len(),
                self.data@.len() == dlen,
                body == self.remaining().subrange(8, 8 + s32 as int),
                r0 == self.remaining(),
                out@.len() == i,
                dec_seq == Seq::new(
                    n as nat,
                    |j: int|
                        T::prim_dec(
                            body.subrange(8 + j * size as int, 8 + (j + 1) * size as int),
                        ),
                ),
                forall|j: int| 0 <= j < i ==> out@[j] == dec_seq[j],
            decreases n - i,
        {
            assert(i * size + size <= elems) by (nonlinear_arith)
                requires
                    i < n,
                    n * size == elems,
                    size > 0,
            ;
            assert(i * size >= 0) by (nonlinear_arith)
                requires
                    i >= 0,
                    size > 0,
            ;
            let v = T::decode_body(
                slice_subrange(
                    self.data,
                    self.pos + 16 + i * size,
                    self.pos + 16 + i * size + size,
                ),
            );
            proof {
                assert(self.data@.subrange(
                    self.pos + 16 + i * size,
                    self.pos + 16 + i * size + size,
                ) =~= body.subrange(8 + i * size as int, 8 + (i + 1) * size as int));
            }
            out.push(v);
            i += 1;
        }
        proof {
            assert(out@ =~= dec_seq);
        }
        self.pos = self.pos + (total64 as usize);
        Ok(out)
    }
}

} // verus!

verus! {

impl<'a> Parser<'a> {
    /// Pop a Choice POD of a fixed-size element kind.
    pub fn pop_choice<T: Primitive>(&mut self) -> (r: Result<Choice<T>, Error>)
        requires
            old(self).wf(),
        ensures
            final(self).data@ == old(self).data@,
            final(self).wf(),
            match crate::pod::spec_choice_dec::<T>(old(self).remaining()) {
                Option::Some((c, n)) => {
                    &&& r matches Ok(v) && crate::pod::choice_view(v) == c
                    &&& final(self).pos == old(self).pos + n
                },
                Option::None => {
                    &&& r matches Err(e) && e == Error::Invalid
                    &&& final(self).pos == old(self).pos
                },
            },
    {
        proof {
            vstd::bytes::lemma_auto_spec_u32_to_from_le_bytes();
        }
        let rem = self.data.len() - self.pos;
        if rem < 8 {
            return Err(Error::Invalid);
        }
        let ghost r0 = self.remaining();
        proof {
            assert(self.data@.subrange(self.pos as int, self.pos + 4) =~= r0.subrange(0, 4));
            assert(self.data@.subrange(self.pos + 4, self.pos + 8) =~= r0.subrange(4, 8));
        }
        let s32 = u32_from_le_bytes(slice_subrange(self.data, self.pos, self.pos + 4));
        let k = u32_from_le_bytes(slice_subrange(self.data, self.pos + 4, self.pos + 8));
        if k != 19 {
            return Err(Error::Invalid);
        }
        let rpad: u64 = (s32 as u64) % 8;
        let pad64: u64 = if rpad > 0 {
            8 - rpad
        } else {
            0
        };
        let total64: u64 = 8 + (s32 as u64) + pad64;
        if (rem as u64) < total64 {
            return Err(Error::Invalid);
        }
        let ghost body = r0.subrange(8, 8 + s32 as int);
        if s32 < 16 {
            return Err(Error::Invalid);
        }
        proof {
            assert(self.data@.subrange(self.pos + 8, self.pos + 12) =~= body.subrange(0, 4));
            assert(self.data@.subrange(self.pos + 16, self.pos + 20) =~= body.subrange(8, 12));
            assert(self.data@.subrange(self.pos + 20, self.pos + 24) =~= body.subrange(12, 16));
        }
        let variant = u32_from_le_bytes(slice_subrange(self.data, self.pos + 8, self.pos + 12));
        let cs = u32_from_le_bytes(slice_subrange(self.data, self.pos + 16, self.pos + 20));
        let ck = u32_from_le_bytes(slice_subrange(self.data, self.pos + 20, self.pos + 24));
        let size = T::pod_size();
        let t = T::pod_type();
        if cs as u64 != size as u64 || ck != t.to_u32() {
            return Err(Error::Invalid);
        }
        let vals = (s32 as usize) - 16;
        let base = self.pos + 24;
        let ghost gbase = base as int;
        proof {
            assert(forall|a: int, b: int|
                16 <= a <= b <= s32 ==> self.data@.subrange(gbase + (a - 16), gbase + (b - 16))
                    =~= #[trigger] body.subrange(a, b));
        }
        if variant == 0 {
            if vals != size {
                return Err(Error::Invalid);
            }
            let value = T::decode_body(slice_subrange(self.data, base, base + size));
            self.pos = self.pos + (total64 as usize);
            return Ok(Choice::NoneVal(value));
        }
        if variant == 1 {
            if vals != 3 * size {
                return Err(Error::Invalid);
            }
            let default = T::decode_body(slice_subrange(self.data, base, base + size));
            let min = T::decode_body(slice_subrange(self.data, base + size, base + 2 * size));
            let max = T::decode_body(slice_subrange(self.data, base + 2 * size, base + 3 * size));
            self.pos = self.pos + (total64 as usize);
            return Ok(Choice::Range { default, min, max });
        }
        if variant == 2 {
            if vals != 4 * size {
                return Err(Error::Invalid);
            }
            let default = T::decode_body(slice_subrange(self.data, base, base + size));
            let min = T::decode_body(slice_subrange(self.data, base + size, base + 2 * size));
            let max = T::decode_body(slice_subrange(self.data, base + 2 * size, base + 3 * size));
            let step = T::decode_body(slice_subrange(self.data, base + 3 * size, base + 4 * size));
            self.pos = self.pos + (total64 as usize);
            return Ok(Choice::Step { default, min, max, step });
        }
        if variant == 3 {
            if vals < size || vals % size != 0 {
                return Err(Error::Invalid);
            }
            let default = T::decode_body(slice_subrange(self.data, base, base + size));
            let n = vals / size - 1;
            assert((n + 1) * size == vals) by (nonlinear_arith)
                requires
                    size > 0,
                    vals >= size,
                    vals % size == 0,
                    n == vals / size - 1,
            ;
            let ghost dec_alts = Seq::new(
                n as nat,
                |i: int|
                    T::prim_dec(
                        body.subrange(16 + (i + 1) * size as int, 16 + (i + 2) * size as int),
                    ),
            );
            let mut alternatives: Vec<T> = Vec::new();
            let dlen = self.data.len();
            let mut i: usize = 0;
            while i < n
                invariant
                    i <= n,
                    (n + 1) * size == vals,
                    vals + 16 == s32,
                    size == T::prim_size(),
                    size == 4 || size == 8,
                    base == self.pos + 24,
                    self.pos + 8 + s32 <= self.data@.len(),
                    self.data@.len() == dlen,
                    body == self.remaining().subrange(8, 8 + s32 as int),
                    r0 == self.remaining(),
                    alternatives@.len() == i,
                    dec_alts == Seq::new(
                        n as nat,
                        |j: int|
                            T::prim_dec(
                                body.subrange(
                                    16 + (j + 1) * size as int,
                                    16 + (j + 2) * size as int,
                                ),
                            ),
                    ),
                    forall|j: int| 0 <= j < i ==> alternatives@[j] == dec_alts[j],
                decreases n - i,
            {
                assert((i + 1) * size + size <= vals && i * size >= 0) by (nonlinear_arith)
                    requires
                        i < n,
                        (n + 1) * size == vals,
                        size > 0,
                ;
                let v = T::decode_body(
                    slice_subrange(
                        self.data,
                        base + size + i * size,
                        base + size + i * size + size,
                    ),
                );
                proof {
                    assert((i + 1) * size == size + i * size && (i + 2) * size == size + i * size
                        + size) by (nonlinear_arith);
                    assert(self.data@.subrange(
                        base + size + i * size,
                        base + size + i * size + size,
                    ) =~= body.subrange(16 + (i + 1) * size as int, 16 + (i + 2) * size as int));
                }
                alternatives.push(v);
                i += 1;
            }
            proof {
                assert(alternatives@ =~= dec_alts);
            }
            self.pos = self.pos + (total64 as usize);
            return Ok(Choice::Enum { default, alternatives });
        }
        if variant == 4 {
            if vals != 2 * size {
                return Err(Error::Invalid);
            }
            let default = T::decode_body(slice_subrange(self.data, base, base + size));
            let flags = T::decode_body(slice_subrange(self.data, base + size, base + 2 * size));
            self.pos = self.pos + (total64 as usize);
            return Ok(Choice::Flags { default, flags });
        }
        Err(Error::Invalid)
    }
}

} // verus!

verus! {

impl<'a> Parser<'a> {
    /// Pop a Struct POD: hand back a sub-reader over exactly the declared
    /// body, and jump this reader to the end of the scope, so a caller that
    /// does not drain the sub-reader still lands past the struct.
    pub fn pop_struct(&mut self) -> (r: Result<Parser<'a>, Error>)
        requires
            old(self).wf(),
        ensures
            final(self).data@ == old(self).data@,
            final(self).wf(),
            match spec_framed_dec(old(self).remaining(), 14u32) {
                Option::Some((body, n)) => {
                    &&& r matches Ok(p) && p.data@ == body && p.pos == 0
                    &&& final(self).pos == old(self).pos + n
                },
                Option::None => {
                    &&& r matches Err(e) && e == Error::Invalid
                    &&& final(self).pos == old(self).pos
                },
            },
    {
        proof {
            vstd::bytes::lemma_auto_spec_u32_to_from_le_bytes();
        }
        let rem = self.data.len() - self.pos;
        if rem < 8 {
            return Err(Error::Invalid);
        }
        let ghost r0 = self.remaining();
        proof {
            assert(self.data@.subrange(self.pos as int, self.pos + 4) =~= r0.subrange(0, 4));
            assert(self.data@.subrange(self.pos + 4, self.pos + 8) =~= r0.subrange(4, 8));
        }
        let s32 = u32_from_le_bytes(slice_subrange(self.data, self.pos, self.pos + 4));
        let k = u32_from_le_bytes(slice_subrange(self.data, self.pos + 4, self.pos + 8));
        if k != 14 {
            return Err(Error::Invalid);
        }
        let rpad: u64 = (s32 as u64) % 8;
        let pad64: u64 = if rpad > 0 {
            8 - rpad
        } else {
            0
        };
        let total64: u64 = 8 + (s32 as u64) + pad64;
        if (rem as u64) < total64 {
            return Err(Error::Invalid);
        }
        let s = s32 as usize;
        let sub = slice_subrange(self.data, self.pos + 8, self.pos + 8 + s);
        proof {
            assert(sub@ =~= r0.subrange(8, 8 + s as int));
        }
        self.pos = self.pos + (total64 as usize);
        Ok(Parser { data: sub, pos: 0 })
    }

    /// Pop an Object POD whose object kind must equal `expected` and whose
    /// parameter kind must be known: hand back the parameter kind and a
    /// property reader over exactly the declared property run, and jump
    /// this reader to the end of the scope, so unread trailing properties
    /// are tolerated.
    pub fn pop_object(&mut self, expected: ObjectType) -> (r: Result<
        (crate::param::ParamType, ObjectParser<'a>),
        Error,
    >)
        requires
            old(self).wf(),
        ensures
            final(self).data@ == old(self).data@,
            final(self).wf(),
            match crate::pod::spec_object_dec(old(self).remaining()) {
                Option::Some(((ot, pt, props), n)) => {
                    if ot == crate::pod::types::object_type_code(expected)
                        && crate::param::spec_paramtype_from(pt) is Some {
                        &&& r matches Ok((ptv, op)) && Option::Some(ptv)
                            == crate::param::spec_paramtype_from(pt)
                        &&& r matches Ok((ptv, op)) && op.data@ == props && op.pos == 0
                        &&& final(self).pos == old(self).pos + n
                    } else {
                        &&& r matches Err(e) && e == Error::Invalid
                        &&& final(self).pos == old(self).pos
                    }
                },
                Option::None => {
                    &&& r matches Err(e) && e == Error::Invalid
                    &&& final(self).pos == old(self).pos
                },
            },
    {
        proof {
            vstd::bytes::lemma_auto_spec_u32_to_from_le_bytes();
        }
        let rem = self.data.len() - self.pos;
        if rem < 8 {
            return Err(Error::Invalid);
        }
        let ghost r0 = self.remaining();
        proof {
            assert(self.data@.subrange(self.pos as int, self.pos + 4) =~= r0.subrange(0, 4));
            assert(self.data@.subrange(self.pos + 4, self.pos + 8) =~= r0.subrange(4, 8));
        }
        let s32 = u32_from_le_bytes(slice_subrange(self.data, self.pos, self.pos + 4));
        let k = u32_from_le_bytes(slice_subrange(self.data, self.pos + 4, self.pos + 8));
        if k != 15 {
            return Err(Error::Invalid);
        }
        let rpad: u64 = (s32 as u64) % 8;
        let pad64: u64 = if rpad > 0 {
            8 - rpad
        } else {
            0
        };
        let total64: u64 = 8 + (s32 as u64) + pad64;
        if (rem as u64) < total64 {
            return Err(Error::Invalid);
        }
        let ghost body = r0.subrange(8, 8 + s32 as int);
        if s32 < 8 {
            return Err(Error::Invalid);
        }
        proof {
            assert(self.data@.subrange(self.pos + 8, self.pos + 12) =~= body.subrange(0, 4));
            assert(self.data@.subrange(self.pos + 12, self.pos + 16) =~= body.subrange(4, 8));
        }
        let ot = u32_from_le_bytes(slice_subrange(self.data, self.pos + 8, self.pos + 12));
        let pt = u32_from_le_bytes(slice_subrange(self.data, self.pos + 12, self.pos + 16));
        if ot != expected.to_u32() {
            return Err(Error::Invalid);
        }
        let ptv = match crate::param::ParamType::from_u32(pt) {
            Option::Some(p) => p,
            Option::None => {
                return Err(Error::Invalid);
            },
        };
        let s = s32 as usize;
        let props = slice_subrange(self.data, self.pos + 16, self.pos + 8 + s);
        proof {
            assert(props@ =~= body.skip(8));
        }
        self.pos = self.pos + (total64 as usize);
        Ok((ptv, ObjectParser { data: props, pos: 0 }))
    }
}

/// A forward reader over the property run of one object.
pub struct ObjectParser<'a> {
    pub data: &'a [u8],
    pub pos: usize,
}

impl<'a> ObjectParser<'a> {
    /// Well-formedness: the cursor is within the run.
    pub open spec fn wf(self) -> bool {
        self.pos <= self.data@.len()
    }

    /// The bytes not yet consumed.
    pub open spec fn remaining(self) -> Seq<u8> {
        self.data@.skip(self.pos as int)
    }

    /// Pop one property, or signal the end of the scope: the raw key
    /// (known or not), the flag set, and a length-validated slice holding
    /// the complete value POD, ready to be decoded as any kind.
    pub fn pop_property(&mut self) -> (r: Result<Option<(u32, PropertyFlags, &'a [u8])>, Error>)
        requires
            old(self).wf(),
        ensures
            final(self).data@ == old(self).data@,
            final(self).wf(),
            old(self).remaining().len() == 0 ==> (r matches Ok(o) && o is None && final(self).pos
                == old(self).pos),
            old(self).remaining().len() != 0 ==> match crate::pod::spec_prop_dec(
                old(self).remaining(),
            ) {
                Option::Some(((key, fl, value), n)) => {
                    &&& r matches Ok(o) && o matches Some((k2, f2, v2)) && k2 == key && f2.0 == fl
                        && v2@ == value
                    &&& final(self).pos == old(self).pos + n
                },
                Option::None => {
                    &&& r matches Err(e) && e == Error::Invalid
                    &&& final(self).pos == old(self).pos
                },
            },
    {
        proof {
            vstd::bytes::lemma_auto_spec_u32_to_from_le_bytes();
        }
        let rem = self.data.len() - self.pos;
        if rem == 0 {
            return Ok(Option::None);
        }
        if rem < 16 {
            return Err(Error::Invalid);
        }
        let ghost r0 = self.remaining();
        proof {
            assert(self.data@.subrange(self.pos as int, self.pos + 4) =~= r0.subrange(0, 4));
            assert(self.data@.subrange(self.pos + 4, self.pos + 8) =~= r0.subrange(4, 8));
            assert(self.data@.subrange(self.pos + 8, self.pos + 12) =~= r0.skip(8).subrange(0, 4));
        }
        let key = u32_from_le_bytes(slice_subrange(self.data, self.pos, self.pos + 4));
        let fl = u32_from_le_bytes(slice_subrange(self.data, self.pos + 4, self.pos + 8));
        let flags = match PropertyFlags::from_bits(fl) {
            Option::Some(f) => f,
            Option::None => {
                return Err(Error::Invalid);
            },
        };
        let vsize = u32_from_le_bytes(slice_subrange(self.data, self.pos + 8, self.pos + 12));
        let rpad: u64 = (vsize as u64) % 8;
        let pad64: u64 = if rpad > 0 {
            8 - rpad
        } else {
            0
        };
        let vtotal64: u64 = 8 + (vsize as u64) + pad64;
        if ((rem - 8) as u64) < vtotal64 {
            return Err(Error::Invalid);
        }
        let vtotal = vtotal64 as usize;
        let value = slice_subrange(self.data, self.pos + 8, self.pos + 8 + vtotal);
        proof {
            assert(value@ =~= r0.skip(8).subrange(0, vtotal as int));
        }
        self.pos = self.pos + 8 + vtotal;
        Ok(Option::Some((key, flags, value)))
    }
}

} // verus!
