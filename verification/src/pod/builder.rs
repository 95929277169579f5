//! Forward-only POD writer over a fixed-capacity buffer. Every `push_*`
//! returns the builder; once an error is set, later pushes are no-ops, and
//! `build` yields either the written bytes or the first error.

use vstd::prelude::*;
use vstd::bytes::{spec_u32_to_le_bytes, u32_to_le_bytes, u64_to_le_bytes};
use vstd::string::StringSliceAdditionalSpecFns;

use crate::error::Error;
use crate::pod::types::{Choice, Double, Fd, Float, Fraction, Id, ObjectType, Pointer,
    PropertyFlags, Rectangle, Type};
use crate::pod::{
    choice_view, pad_8, spec_bodies, spec_choice_pod, spec_choice_vals, spec_pod,
    spec_prim_pod, spec_prop, Primitive,
};

verus! {

/// A forward writer: the bytes written so far, the capacity of the caller's
/// buffer, and the sticky error.
pub struct Builder {
    pub data: Vec<u8>,
    pub cap: usize,
    pub error: Option<Error>,
}

impl Builder {
    /// Well-formedness: while no error is set, the cursor is within the
    /// buffer.
    pub open spec fn wf(self) -> bool {
        self.error is None ==> self.data@.len() <= self.cap
    }
}

/// What one push leaves behind: on a sticky error nothing; otherwise either
/// `bytes` appended, or `NoSpace` when they do not fit in the capacity.
pub open spec fn push_result(pre: Builder, post: Builder, bytes: Seq<u8>) -> bool {
    &&& post.cap == pre.cap
    &&& match pre.error {
        Option::Some(_) => post == pre,
        Option::None => if pre.data@.len() + bytes.len() <= pre.cap {
            &&& post.error is None
            &&& post.data@ == pre.data@ + bytes
        } else {
            &&& post.error == Option::Some(Error::NoSpace)
            &&& post.data@ == pre.data@
        },
    }
}

/// A sub-builder handed to a scope: the parent with a header's worth of
/// placeholder bytes already written.
pub open spec fn open_frame(pre: Builder, hdr: int, sub: Builder) -> bool {
    &&& sub.cap == pre.cap
    &&& sub.error is None
    &&& sub.data@ == pre.data@ + crate::pod::zeros(hdr)
}

/// Closing a struct scope: on an error from the scope, that error stands;
/// on a well-formed return the 8 placeholder bytes are patched with the
/// scope's body size and the Struct kind; a scope that mangled the builder
/// is refused.
pub open spec fn struct_close_result(pre: Builder, mid: Builder, post: Builder) -> bool {
    if mid.error is Some {
        post == mid
    } else if mid.cap == pre.cap && pre.data@.len() + 8 <= mid.data@.len() && mid.data@.len()
        <= mid.cap && mid.data@.len() - pre.data@.len() - 8 <= u32::MAX {
        let pl = pre.data@.len() as int;
        let size = mid.data@.len() - pl - 8;
        &&& post.cap == pre.cap
        &&& post.error is None
        &&& post.data@ == mid.data@.take(pl) + spec_u32_to_le_bytes(size as u32)
            + spec_u32_to_le_bytes(14u32) + mid.data@.skip(pl + 8)
    } else {
        &&& post.cap == mid.cap
        &&& post.error == Option::Some(Error::NoSpace)
        &&& post.data@ == mid.data@
    }
}

/// Closing an object scope: as a struct scope, but the 16 placeholder bytes
/// are patched with the body size, the Object kind, the object kind word
/// and the parameter kind word.
pub open spec fn object_close_result(
    pre: Builder,
    mid: Builder,
    post: Builder,
    otype: u32,
    ptype: u32,
) -> bool {
    if mid.error is Some {
        post == mid
    } else if mid.cap == pre.cap && pre.data@.len() + 16 <= mid.data@.len() && mid.data@.len()
        <= mid.cap && mid.data@.len() - pre.data@.len() - 8 <= u32::MAX {
        let pl = pre.data@.len() as int;
        let size = mid.data@.len() - pl - 8;
        &&& post.cap == pre.cap
        &&& post.error is None
        &&& post.data@ == mid.data@.take(pl) + spec_u32_to_le_bytes(size as u32)
            + spec_u32_to_le_bytes(15u32) + spec_u32_to_le_bytes(otype) + spec_u32_to_le_bytes(
            ptype,
        ) + mid.data@.skip(pl + 16)
    } else {
        &&& post.cap == mid.cap
        &&& post.error == Option::Some(Error::NoSpace)
        &&& post.data@ == mid.data@
    }
}

impl Builder {
    /// A fresh writer over the caller's buffer; the buffer's length is the
    /// capacity and its contents are discarded.
    pub fn new(data: Vec<u8>) -> (r: Builder)
        ensures
            r.cap == data@.len(),
            r.data@.len() == 0,
            r.error is None,
            r.wf(),
    {
        let cap = data.len();
        let mut d = data;
        d.clear();
        Builder { data: d, cap, error: Option::None }
    }

    /// The written bytes, or the first error.
    pub fn build(self) -> (r: Result<Vec<u8>, Error>)
        ensures
            match self.error {
                Option::Some(e) => r matches Err(e2) && e2 == e,
                Option::None => r matches Ok(v) && v@ == self.data@,
            },
    {
        match self.error {
            Option::Some(e) => Err(e),
            Option::None => Ok(self.data),
        }
    }

    /// Append `bytes` whole if it fits, else set `NoSpace`. The workhorse
    /// behind every fixed push.
    fn append_or_fail(self, bytes: Vec<u8>) -> (r: Builder)
        requires
            self.wf(),
        ensures
            push_result(self, r, bytes@),
            r.wf(),
    {
        let mut b = self;
        if b.error.is_some() {
            return b;
        }
        let avail = b.cap - b.data.len();
        if avail < bytes.len() {
            b.error = Option::Some(Error::NoSpace);
            return b;
        }
        let mut bytes = bytes;
        b.data.append(&mut bytes);
        b
    }

    /// Serialize one fixed-size POD into a fresh vector.
    fn prim_pod_bytes<T: Primitive>(value: &T) -> (r: Vec<u8>)
        ensures
            r@ == spec_prim_pod(*value),
    {
        proof {
            value.lemma_prim_facts();
        }
        let size = T::pod_size();
        let mut out = u32_to_le_bytes(size as u32);
        let t = T::pod_type();
        let mut kind = u32_to_le_bytes(t.to_u32());
        out.append(&mut kind);
        value.encode_body(&mut out);
        let pad = pad_8(size);
        let ghost before = out@;
        let mut i: usize = 0;
        while i < pad
            invariant
                i <= pad,
                out@ == before + crate::pod::zeros(i as int),
            decreases pad - i,
        {
            out.push(0u8);
            proof {
                assert(before + crate::pod::zeros(i + 1) =~= (before + crate::pod::zeros(i as int)).push(
                    0u8,
                ));
            }
            i += 1;
        }
        proof {
            assert(out@ =~= spec_prim_pod(*value));
        }
        out
    }

    /// Push one fixed-size POD.
    pub fn push_pod<T: Primitive>(self, value: &T) -> (r: Builder)
        requires
            self.wf(),
        ensures
            push_result(self, r, spec_prim_pod(*value)),
            r.wf(),
    {
        let bytes = Self::prim_pod_bytes(value);
        self.append_or_fail(bytes)
    }

    /// Push a None POD: an empty body.
    pub fn push_none(self) -> (r: Builder)
        requires
            self.wf(),
        ensures
            push_result(self, r, spec_pod(1u32, Seq::empty())),
            r.wf(),
    {
        let mut out = u32_to_le_bytes(0u32);
        let mut kind = u32_to_le_bytes(1u32);
        out.append(&mut kind);
        proof {
            assert(out@ =~= spec_pod(1u32, Seq::empty()));
        }
        self.append_or_fail(out)
    }

    /// Push a Bool POD.
    pub fn push_bool(self, value: bool) -> (r: Builder)
        requires
            self.wf(),
        ensures
            push_result(self, r, spec_prim_pod(value)),
            r.wf(),
    {
        self.push_pod(&value)
    }

    /// Push an Id POD.
    pub fn push_id(self, value: Id) -> (r: Builder)
        requires
            self.wf(),
        ensures
            push_result(self, r, spec_prim_pod(value)),
            r.wf(),
    {
        self.push_pod(&value)
    }

    /// Push an Int POD.
    pub fn push_int(self, value: i32) -> (r: Builder)
        requires
            self.wf(),
        ensures
            push_result(self, r, spec_prim_pod(value)),
            r.wf(),
    {
        self.push_pod(&value)
    }

    /// Push a Long POD.
    pub fn push_long(self, value: i64) -> (r: Builder)
        requires
            self.wf(),
        ensures
            push_result(self, r, spec_prim_pod(value)),
            r.wf(),
    {
        self.push_pod(&value)
    }

    /// Push a Float POD, given by its bit pattern.
    pub fn push_float(self, value: Float) -> (r: Builder)
        requires
            self.wf(),
        ensures
            push_result(self, r, spec_prim_pod(value)),
            r.wf(),
    {
        self.push_pod(&value)
    }

    /// Push a Double POD, given by its bit pattern.
    pub fn push_double(self, value: Double) -> (r: Builder)
        requires
            self.wf(),
        ensures
            push_result(self, r, spec_prim_pod(value)),
            r.wf(),
    {
        self.push_pod(&value)
    }

    /// Push an Fd POD.
    pub fn push_fd(self, value: i32) -> (r: Builder)
        requires
            self.wf(),
        ensures
            push_result(self, r, spec_prim_pod(Fd(value))),
            r.wf(),
    {
        self.push_pod(&Fd(value))
    }

    /// Push a Rectangle POD.
    pub fn push_rectangle(self, width: u32, height: u32) -> (r: Builder)
        requires
            self.wf(),
        ensures
            push_result(self, r, spec_prim_pod(Rectangle { width, height })),
            r.wf(),
    {
        self.push_pod(&Rectangle { width, height })
    }

    /// Push a Fraction POD.
    pub fn push_fraction(self, num: u32, denom: u32) -> (r: Builder)
        requires
            self.wf(),
        ensures
            push_result(self, r, spec_prim_pod(Fraction { num, denom })),
            r.wf(),
    {
        self.push_pod(&Fraction { num, denom })
    }

    /// Push a Pointer POD.
    pub fn push_pointer(self, typ: Type, value: u64) -> (r: Builder)
        requires
            self.wf(),
        ensures
            push_result(self, r, crate::pod::spec_pointer_pod(Pointer { type_: typ, ptr: value })),
            r.wf(),
    {
        let mut out = u32_to_le_bytes(16u32);
        let mut kind = u32_to_le_bytes(17u32);
        out.append(&mut kind);
        let mut tb = u32_to_le_bytes(typ.to_u32());
        out.append(&mut tb);
        let mut zb = u32_to_le_bytes(0u32);
        out.append(&mut zb);
        let mut pb = u64_to_le_bytes(value);
        out.append(&mut pb);
        proof {
            vstd::bytes::lemma_auto_spec_u32_to_from_le_bytes();
            vstd::bytes::lemma_auto_spec_u64_to_from_le_bytes();
            assert(out@ =~= crate::pod::spec_pointer_pod(Pointer { type_: typ, ptr: value }));
        }
        self.append_or_fail(out)
    }

    /// Push a String POD for UTF-8 text: the bytes, a terminating zero, and
    /// padding. The size field is 32 bits wide, which bounds the text.
    pub fn push_string(self, value: &str) -> (r: Builder)
        requires
            self.wf(),
            value.spec_bytes().len() < u32::MAX,
        ensures
            push_result(self, r, crate::pod::spec_string_pod(value.spec_bytes())),
            r.wf(),
    {
        let bytes = value.as_bytes();
        self.push_terminated_bytes(bytes)
    }

    /// Push the String POD of raw bytes: used by `push_string` once the
    /// text is fixed as UTF-8.
    fn push_terminated_bytes(self, bytes: &[u8]) -> (r: Builder)
        requires
            self.wf(),
            bytes@.len() < u32::MAX,
        ensures
            push_result(self, r, crate::pod::spec_string_pod(bytes@)),
            r.wf(),
    {
        let n = bytes.len();
        let mut out = u32_to_le_bytes((n + 1) as u32);
        let mut kind = u32_to_le_bytes(8u32);
        out.append(&mut kind);
        out.extend_from_slice(bytes);
        out.push(0u8);
        let pad = pad_8(n + 1);
        let ghost before = out@;
        let mut i: usize = 0;
        while i < pad
            invariant
                i <= pad,
                out@ == before + crate::pod::zeros(i as int),
            decreases pad - i,
        {
            out.push(0u8);
            proof {
                assert(before + crate::pod::zeros(i + 1) =~= (before + crate::pod::zeros(i as int)).push(
                    0u8,
                ));
            }
            i += 1;
        }
        proof {
            assert((bytes@ + seq![0u8]).len() == n + 1);
            assert(out@ =~= crate::pod::spec_string_pod(bytes@));
        }
        self.append_or_fail(out)
    }

    /// Push a Bytes POD: the raw bytes and padding. The size field is 32
    /// bits wide, which bounds the payload.
    pub fn push_bytes(self, value: &[u8]) -> (r: Builder)
        requires
            self.wf(),
            value@.len() <= u32::MAX,
        ensures
            push_result(self, r, crate::pod::spec_bytes_pod(value@)),
            r.wf(),
    {
        let n = value.len();
        let mut out = u32_to_le_bytes(n as u32);
        let mut kind = u32_to_le_bytes(9u32);
        out.append(&mut kind);
        out.extend_from_slice(value);
        let pad = pad_8(n);
        let ghost before = out@;
        let mut i: usize = 0;
        while i < pad
            invariant
                i <= pad,
                out@ == before + crate::pod::zeros(i as int),
            decreases pad - i,
        {
            out.push(0u8);
            proof {
                assert(before + crate::pod::zeros(i + 1) =~= (before + crate::pod::zeros(i as int)).push(
                    0u8,
                ));
            }
            i += 1;
        }
        proof {
            assert(out@ =~= crate::pod::spec_bytes_pod(value@));
        }
        self.append_or_fail(out)
    }

    /// Serialize a run of element bodies into `out`.
    fn extend_bodies<T: Primitive>(out: &mut Vec<u8>, values: &[T])
        ensures
            final(out)@ == old(out)@ + spec_bodies(values@),
    {
        let ghost before = out@;
        let mut i: usize = 0;
        while i < values.len()
            invariant
                i <= values@.len(),
                out@ == before + spec_bodies(values@.take(i as int)),
            decreases values@.len() - i,
        {
            let v = values[i];
            v.encode_body(out);
            proof {
                assert(values@.take(i + 1).drop_last() =~= values@.take(i as int));
                assert(values@.take(i + 1).last() == values@[i as int]);
            }
            i += 1;
        }
        proof {
            assert(values@.take(values@.len() as int) =~= values@);
        }
    }

    /// Push an Array POD: a uniform child header, then the element bodies.
    /// The size field is 32 bits wide, which bounds the run.
    pub fn push_array<T: Primitive>(self, values: &[T]) -> (r: Builder)
        requires
            self.wf(),
            8 + values@.len() * T::prim_size() <= u32::MAX,
        ensures
            push_result(self, r, crate::pod::spec_array_pod(values@)),
            r.wf(),
    {
        let size = T::pod_size();
        let n = values.len();
        assert(n * size <= u32::MAX - 8) by (nonlinear_arith)
            requires
                8 + n * size <= u32::MAX,
                n >= 0,
                size >= 0,
        ;
        let elems: u64 = (n as u64) * (size as u64);
        let mut out = u32_to_le_bytes((8 + elems) as u32);
        let mut kind = u32_to_le_bytes(13u32);
        out.append(&mut kind);
        let mut csize = u32_to_le_bytes(size as u32);
        out.append(&mut csize);
        let t = T::pod_type();
        let mut ckind = u32_to_le_bytes(t.to_u32());
        out.append(&mut ckind);
        Self::extend_bodies(&mut out, values);
        proof {
            crate::pod::lemma_bodies_len::<T>(values@);
        }
        let pad = pad_8((8 + elems) as usize);
        let ghost before = out@;
        let mut i: usize = 0;
        while i < pad
            invariant
                i <= pad,
                out@ == before + crate::pod::zeros(i as int),
            decreases pad - i,
        {
            out.push(0u8);
            proof {
                assert(before + crate::pod::zeros(i + 1) =~= (before + crate::pod::zeros(i as int)).push(
                    0u8,
                ));
            }
            i += 1;
        }
        proof {
            assert(out@ =~= crate::pod::spec_array_pod(values@));
        }
        self.append_or_fail(out)
    }

    /// Push a Choice POD: the variant code, an unused flags word, the child
    /// header, then the variant's values. The size field is 32 bits wide,
    /// which bounds an Enum's alternatives.
    pub fn push_choice<T: Primitive>(self, value: &Choice<T>) -> (r: Builder)
        requires
            self.wf(),
            16 + spec_choice_vals(choice_view(*value)).len() <= u32::MAX,
        ensures
            push_result(self, r, spec_choice_pod(choice_view(*value))),
            r.wf(),
    {
        let bytes = Self::choice_pod_bytes(value);
        self.append_or_fail(bytes)
    }

    /// Serialize one Choice POD into a fresh vector.
    fn choice_pod_bytes<T: Primitive>(value: &Choice<T>) -> (r: Vec<u8>)
        requires
            16 + spec_choice_vals(choice_view(*value)).len() <= u32::MAX,
        ensures
            r@ == spec_choice_pod(choice_view(*value)),
    {
        let size = T::pod_size();
        proof {
            match *value {
                Choice::NoneVal(v) => v.lemma_prim_facts(),
                Choice::Range { default, min, max } => {
                    default.lemma_prim_facts();
                    min.lemma_prim_facts();
                    max.lemma_prim_facts();
                },
                Choice::Step { default, min, max, step } => {
                    default.lemma_prim_facts();
                    min.lemma_prim_facts();
                    max.lemma_prim_facts();
                    step.lemma_prim_facts();
                },
                Choice::Enum { default, ref alternatives } => {
                    default.lemma_prim_facts();
                    crate::pod::lemma_bodies_len::<T>(alternatives@);
                    assert((1 + alternatives@.len()) * T::prim_size() == T::prim_size()
                        + alternatives@.len() * T::prim_size()) by (nonlinear_arith);
                    assert(alternatives@.len() <= alternatives@.len() * T::prim_size())
                        by (nonlinear_arith)
                        requires
                            T::prim_size() >= 1,
                            alternatives@.len() >= 0,
                    ;
                },
                Choice::Flags { default, flags } => {
                    default.lemma_prim_facts();
                    flags.lemma_prim_facts();
                },
            }
        }
        let (code, nvals): (u32, u64) = match value {
            Choice::NoneVal(_) => (0, 1),
            Choice::Range { .. } => (1, 3),
            Choice::Step { .. } => (2, 4),
            Choice::Enum { default: _, alternatives } => (3, 1 + alternatives.len() as u64),
            Choice::Flags { .. } => (4, 2),
        };
        let body_size: u64 = 16 + nvals * (size as u64);
        assert(body_size == 16 + spec_choice_vals(choice_view(*value)).len()) by (nonlinear_arith)
            requires
                nvals * size == spec_choice_vals(choice_view(*value)).len(),
                body_size == 16 + nvals * size,
                16 + spec_choice_vals(choice_view(*value)).len() <= u32::MAX,
        ;
        let mut out = u32_to_le_bytes(body_size as u32);
        let mut kind = u32_to_le_bytes(19u32);
        out.append(&mut kind);
        let mut cb = u32_to_le_bytes(code);
        out.append(&mut cb);
        let mut fb = u32_to_le_bytes(0u32);
        out.append(&mut fb);
        let mut sb = u32_to_le_bytes(size as u32);
        out.append(&mut sb);
        let t = T::pod_type();
        let mut kb = u32_to_le_bytes(t.to_u32());
        out.append(&mut kb);
        match value {
            Choice::NoneVal(v) => {
                v.encode_body(&mut out);
            },
            Choice::Range { default, min, max } => {
                default.encode_body(&mut out);
                min.encode_body(&mut out);
                max.encode_body(&mut out);
            },
            Choice::Step { default, min, max, step } => {
                default.encode_body(&mut out);
                min.encode_body(&mut out);
                max.encode_body(&mut out);
                step.encode_body(&mut out);
            },
            Choice::Enum { default, alternatives } => {
                default.encode_body(&mut out);
                Self::extend_bodies(&mut out, alternatives.as_slice());
            },
            Choice::Flags { default, flags } => {
                default.encode_body(&mut out);
                flags.encode_body(&mut out);
            },
        }
        let pad = pad_8(body_size as usize);
        let ghost before = out@;
        let mut i: usize = 0;
        while i < pad
            invariant
                i <= pad,
                out@ == before + crate::pod::zeros(i as int),
            decreases pad - i,
        {
            out.push(0u8);
            proof {
                assert(before + crate::pod::zeros(i + 1) =~= (before + crate::pod::zeros(i as int)).push(
                    0u8,
                ));
            }
            i += 1;
        }
        proof {
            assert(out@ =~= spec_choice_pod(choice_view(*value)));
        }
        out
    }
}

} // verus!

verus! {

impl Builder {
    /// Patch `count` header bytes at `pos` from `words`, one little-endian
    /// word at a time.
    fn patch_words(data: &mut Vec<u8>, pos: usize, words: &[u32])
        requires
            pos + 4 * words@.len() <= old(data)@.len(),
            old(data)@.len() <= usize::MAX,
        ensures
            final(data)@.len() == old(data)@.len(),
            final(data)@ == old(data)@.take(pos as int) + spec_words(words@) + old(data)@.skip(
                pos + 4 * words@.len(),
            ),
    {
        let ghost orig = data@;
        let mut w: usize = 0;
        while w < words.len()
            invariant
                w <= words@.len(),
                pos + 4 * words@.len() <= orig.len(),
                orig.len() <= usize::MAX,
                data@.len() == orig.len(),
                data@ == orig.take(pos as int) + spec_words(words@.take(w as int)) + orig.skip(
                    pos + 4 * w,
                ),
            decreases words@.len() - w,
        {
            let word_bytes = u32_to_le_bytes(words[w]);
            let mut j: usize = 0;
            proof {
                vstd::bytes::lemma_auto_spec_u32_to_from_le_bytes();
                lemma_words_len(words@.take(w as int));
            }
            while j < 4
                invariant
                    j <= 4,
                    w < words@.len(),
                    word_bytes@ == spec_u32_to_le_bytes(words@[w as int]),
                    pos + 4 * words@.len() <= orig.len(),
                    orig.len() <= usize::MAX,
                    data@.len() == orig.len(),
                    data@ == orig.take(pos as int) + spec_words(words@.take(w as int))
                        + word_bytes@.take(j as int) + orig.skip(pos + 4 * w + j),
                decreases 4 - j,
            {
                proof {
                    vstd::bytes::lemma_auto_spec_u32_to_from_le_bytes();
                    lemma_words_len(words@.take(w as int));
                }
                data.set(pos + 4 * w + j, word_bytes[j]);
                proof {
                    assert(data@ =~= orig.take(pos as int) + spec_words(words@.take(w as int))
                        + word_bytes@.take(j + 1) + orig.skip(pos + 4 * w + j + 1));
                }
                j += 1;
            }
            proof {
                assert(spec_words(words@.take(w + 1)) =~= spec_words(words@.take(w as int))
                    + word_bytes@) by {
                    assert(words@.take(w + 1).drop_last() =~= words@.take(w as int));
                }
                assert(data@ =~= orig.take(pos as int) + spec_words(words@.take(w + 1)) + orig.skip(
                    pos + 4 * (w + 1),
                ));
            }
            w += 1;
        }
        proof {
            assert(words@.take(words@.len() as int) =~= words@);
        }
    }

    /// Open a struct scope, run the caller's scope body on a sub-builder,
    /// then patch the reserved header with the scope's body size.
    pub fn push_struct<F: FnOnce(StructBuilder) -> StructBuilder>(self, build_struct: F) -> (r:
        Builder)
        requires
            self.wf(),
            self.error is None && self.data@.len() + 8 <= self.cap ==> forall|sub: StructBuilder|
                open_frame(self, 8, sub.builder) ==> #[trigger] call_requires(build_struct, (sub,)),
        ensures
            self.error is Some ==> r == self,
            self.error is None && self.data@.len() + 8 > self.cap ==> r.cap == self.cap && r.data@
                == self.data@ && r.error == Option::Some(Error::NoSpace),
            self.error is None && self.data@.len() + 8 <= self.cap ==> exists|
                sub: StructBuilder,
                out: StructBuilder,
            |
                open_frame(self, 8, sub.builder) && #[trigger] call_ensures(
                    build_struct,
                    (sub,),
                    out,
                ) && struct_close_result(self, out.builder, r),
    {
        let mut b = self;
        if b.error.is_some() {
            return b;
        }
        if b.cap - b.data.len() < 8 {
            b.error = Option::Some(Error::NoSpace);
            return b;
        }
        let old_pos = b.data.len();
        let cap = b.cap;
        let mut i: usize = 0;
        let ghost pre = b.data@;
        while i < 8
            invariant
                i <= 8,
                b.data@ == pre + crate::pod::zeros(i as int),
                b.cap == self.cap,
                b.error is None,
            decreases 8 - i,
        {
            b.data.push(0u8);
            proof {
                assert(pre + crate::pod::zeros(i + 1) =~= (pre + crate::pod::zeros(i as int)).push(
                    0u8,
                ));
            }
            i += 1;
        }
        let sub = StructBuilder { builder: b };
        let ghost gsub = sub;
        proof {
            assert(sub.builder.data@ =~= self.data@ + crate::pod::zeros(8));
            assert(open_frame(self, 8, sub.builder));
        }
        let out = build_struct(sub);
        let ghost gout = out;
        let mut ret = out.builder;
        if ret.error.is_some() {
            proof {
                assert(call_ensures(build_struct, (gsub,), gout) && struct_close_result(
                    self,
                    gout.builder,
                    ret,
                ));
            }
            return ret;
        }
        if !(ret.cap == cap && old_pos + 8 <= ret.data.len() && ret.data.len() <= ret.cap
            && ret.data.len() - old_pos - 8 <= u32::MAX as usize) {
            ret.error = Option::Some(Error::NoSpace);
            proof {
                assert(call_ensures(build_struct, (gsub,), gout) && struct_close_result(
                    self,
                    gout.builder,
                    ret,
                ));
            }
            return ret;
        }
        let size = ret.data.len() - old_pos - 8;
        let words: [u32; 2] = [size as u32, 14u32];
        Self::patch_words(&mut ret.data, old_pos, words.as_slice());
        proof {
            let ws = words@;
            assert(ws.drop_last() =~= ws.take(1int));
            assert(ws.take(1int).drop_last() =~= Seq::<u32>::empty());
            assert(ws.take(1int).last() == ws[0]);
            assert(spec_words(ws.take(1int)) == spec_words(Seq::<u32>::empty())
                + spec_u32_to_le_bytes(ws[0]));
            assert(spec_words(ws) =~= spec_u32_to_le_bytes(size as u32) + spec_u32_to_le_bytes(
                14u32,
            ));
            assert(ret.data@ =~= gout.builder.data@.take(old_pos as int) + spec_u32_to_le_bytes(
                size as u32,
            ) + spec_u32_to_le_bytes(14u32) + gout.builder.data@.skip(old_pos + 8));
            assert(call_ensures(build_struct, (gsub,), gout) && struct_close_result(
                self,
                gout.builder,
                ret,
            ));
        }
        ret
    }

    /// Open an object scope with the given object kind and parameter kind,
    /// run the caller's scope body on a sub-builder, then patch the
    /// reserved header.
    pub fn push_object<F: FnOnce(ObjectBuilder) -> ObjectBuilder>(
        self,
        type_: ObjectType,
        param_type: u32,
        build_object: F,
    ) -> (r: Builder)
        requires
            self.wf(),
            self.error is None && self.data@.len() + 16 <= self.cap ==> forall|sub: ObjectBuilder|
                open_frame(self, 16, sub.builder) ==> #[trigger] call_requires(build_object, (sub,)),
        ensures
            self.error is Some ==> r == self,
            self.error is None && self.data@.len() + 16 > self.cap ==> r.cap == self.cap && r.data@
                == self.data@ && r.error == Option::Some(Error::NoSpace),
            self.error is None && self.data@.len() + 16 <= self.cap ==> exists|
                sub: ObjectBuilder,
                out: ObjectBuilder,
            |
                open_frame(self, 16, sub.builder) && #[trigger] call_ensures(
                    build_object,
                    (sub,),
                    out,
                ) && object_close_result(
                    self,
                    out.builder,
                    r,
                    crate::pod::types::object_type_code(type_),
                    param_type,
                ),
    {
        let mut b = self;
        if b.error.is_some() {
            return b;
        }
        if b.cap - b.data.len() < 16 {
            b.error = Option::Some(Error::NoSpace);
            return b;
        }
        let old_pos = b.data.len();
        let cap = b.cap;
        let mut i: usize = 0;
        let ghost pre = b.data@;
        while i < 16
            invariant
                i <= 16,
                b.data@ == pre + crate::pod::zeros(i as int),
                b.cap == self.cap,
                b.error is None,
            decreases 16 - i,
        {
            b.data.push(0u8);
            proof {
                assert(pre + crate::pod::zeros(i + 1) =~= (pre + crate::pod::zeros(i as int)).push(
                    0u8,
                ));
            }
            i += 1;
        }
        let sub = ObjectBuilder { builder: b };
        let ghost gsub = sub;
        proof {
            assert(sub.builder.data@ =~= self.data@ + crate::pod::zeros(16));
            assert(open_frame(self, 16, sub.builder));
        }
        let out = build_object(sub);
        let ghost gout = out;
        let mut ret = out.builder;
        if ret.error.is_some() {
            proof {
                assert(call_ensures(build_object, (gsub,), gout) && object_close_result(
                    self,
                    gout.builder,
                    ret,
                    crate::pod::types::object_type_code(type_),
                    param_type,
                ));
            }
            return ret;
        }
        if !(ret.cap == cap && old_pos + 16 <= ret.data.len() && ret.data.len() <= ret.cap
            && ret.data.len() - old_pos - 8 <= u32::MAX as usize) {
            ret.error = Option::Some(Error::NoSpace);
            proof {
                assert(call_ensures(build_object, (gsub,), gout) && object_close_result(
                    self,
                    gout.builder,
                    ret,
                    crate::pod::types::object_type_code(type_),
                    param_type,
                ));
            }
            return ret;
        }
        let size = ret.data.len() - old_pos - 8;
        let words: [u32; 4] = [size as u32, 15u32, type_.to_u32(), param_type];
        Self::patch_words(&mut ret.data, old_pos, words.as_slice());
        proof {
            let ws = words@;
            assert(ws.drop_last() =~= ws.take(3int));
            assert(ws.take(3int).drop_last() =~= ws.take(2int));
            assert(ws.take(2int).drop_last() =~= ws.take(1int));
            assert(ws.take(1int).drop_last() =~= Seq::<u32>::empty());
            assert(ws.take(1int).last() == ws[0]);
            assert(ws.take(2int).last() == ws[1]);
            assert(ws.take(3int).last() == ws[2]);
            assert(spec_words(ws.take(1int)) == spec_words(Seq::<u32>::empty())
                + spec_u32_to_le_bytes(ws[0]));
            assert(spec_words(ws.take(2int)) == spec_words(ws.take(1int)) + spec_u32_to_le_bytes(
                ws[1],
            ));
            assert(spec_words(ws.take(3int)) == spec_words(ws.take(2int)) + spec_u32_to_le_bytes(
                ws[2],
            ));
            assert(spec_words(ws) =~= spec_u32_to_le_bytes(size as u32) + spec_u32_to_le_bytes(
                15u32,
            ) + spec_u32_to_le_bytes(crate::pod::types::object_type_code(type_))
                + spec_u32_to_le_bytes(param_type));
            assert(ret.data@ =~= gout.builder.data@.take(old_pos as int) + spec_u32_to_le_bytes(
                size as u32,
            ) + spec_u32_to_le_bytes(15u32) + spec_u32_to_le_bytes(
                crate::pod::types::object_type_code(type_),
            ) + spec_u32_to_le_bytes(param_type) + gout.builder.data@.skip(old_pos + 16));
            assert(call_ensures(build_object, (gsub,), gout) && object_close_result(
                self,
                gout.builder,
                ret,
                crate::pod::types::object_type_code(type_),
                param_type,
            ));
        }
        ret
    }
}

/// The little-endian serialization of a run of 32-bit words.
pub open spec fn spec_words(words: Seq<u32>) -> Seq<u8>
    decreases words.len(),
{
    if words.len() == 0 {
        Seq::empty()
    } else {
        spec_words(words.drop_last()) + spec_u32_to_le_bytes(words.last())
    }
}

/// Length of a serialized word run.
pub proof fn lemma_words_len(words: Seq<u32>)
    ensures
        spec_words(words).len() == 4 * words.len(),
    decreases words.len(),
{
    vstd::bytes::lemma_auto_spec_u32_to_from_le_bytes();
    if words.len() > 0 {
        lemma_words_len(words.drop_last());
    }
}

/// Sub-builder of a struct scope: the same pushes, forwarded.
pub struct StructBuilder {
    pub builder: Builder,
}

/// Sub-builder of an object scope: pushes whole properties.
pub struct ObjectBuilder {
    pub builder: Builder,
}

} // verus!

verus! {

impl StructBuilder {
    /// Push one fixed-size POD into the scope.
    pub fn push_pod<T: Primitive>(self, value: &T) -> (r: StructBuilder)
        requires
            self.builder.wf(),
        ensures
            push_result(self.builder, r.builder, spec_prim_pod(*value)),
            r.builder.wf(),
    {
        StructBuilder { builder: self.builder.push_pod(value) }
    }

    /// Push a None POD into the scope.
    pub fn push_none(self) -> (r: StructBuilder)
        requires
            self.builder.wf(),
        ensures
            push_result(self.builder, r.builder, spec_pod(1u32, Seq::empty())),
            r.builder.wf(),
    {
        StructBuilder { builder: self.builder.push_none() }
    }

    /// Push a Bool POD into the scope.
    pub fn push_bool(self, value: bool) -> (r: StructBuilder)
        requires
            self.builder.wf(),
        ensures
            push_result(self.builder, r.builder, spec_prim_pod(value)),
            r.builder.wf(),
    {
        StructBuilder { builder: self.builder.push_bool(value) }
    }

    /// Push an Id POD into the scope.
    pub fn push_id(self, value: Id) -> (r: StructBuilder)
        requires
            self.builder.wf(),
        ensures
            push_result(self.builder, r.builder, spec_prim_pod(value)),
            r.builder.wf(),
    {
        StructBuilder { builder: self.builder.push_id(value) }
    }

    /// Push an Int POD into the scope.
    pub fn push_int(self, value: i32) -> (r: StructBuilder)
        requires
            self.builder.wf(),
        ensures
            push_result(self.builder, r.builder, spec_prim_pod(value)),
            r.builder.wf(),
    {
        StructBuilder { builder: self.builder.push_int(value) }
    }

    /// Push a Long POD into the scope.
    pub fn push_long(self, value: i64) -> (r: StructBuilder)
        requires
            self.builder.wf(),
        ensures
            push_result(self.builder, r.builder, spec_prim_pod(value)),
            r.builder.wf(),
    {
        StructBuilder { builder: self.builder.push_long(value) }
    }

    /// Push a Float POD into the scope.
    pub fn push_float(self, value: Float) -> (r: StructBuilder)
        requires
            self.builder.wf(),
        ensures
            push_result(self.builder, r.builder, spec_prim_pod(value)),
            r.builder.wf(),
    {
        StructBuilder { builder: self.builder.push_float(value) }
    }

    /// Push a Double POD into the scope.
    pub fn push_double(self, value: Double) -> (r: StructBuilder)
        requires
            self.builder.wf(),
        ensures
            push_result(self.builder, r.builder, spec_prim_pod(value)),
            r.builder.wf(),
    {
        StructBuilder { builder: self.builder.push_double(value) }
    }

    /// Push an Fd POD into the scope.
    pub fn push_fd(self, value: i32) -> (r: StructBuilder)
        requires
            self.builder.wf(),
        ensures
            push_result(self.builder, r.builder, spec_prim_pod(Fd(value))),
            r.builder.wf(),
    {
        StructBuilder { builder: self.builder.push_fd(value) }
    }

    /// Push a Rectangle POD into the scope.
    pub fn push_rectangle(self, width: u32, height: u32) -> (r: StructBuilder)
        requires
            self.builder.wf(),
        ensures
            push_result(self.builder, r.builder, spec_prim_pod(Rectangle { width, height })),
            r.builder.wf(),
    {
        StructBuilder { builder: self.builder.push_rectangle(width, height) }
    }

    /// Push a Fraction POD into the scope.
    pub fn push_fraction(self, num: u32, denom: u32) -> (r: StructBuilder)
        requires
            self.builder.wf(),
        ensures
            push_result(self.builder, r.builder, spec_prim_pod(Fraction { num, denom })),
            r.builder.wf(),
    {
        StructBuilder { builder: self.builder.push_fraction(num, denom) }
    }

    /// Push a Pointer POD into the scope.
    pub fn push_pointer(self, typ: Type, value: u64) -> (r: StructBuilder)
        requires
            self.builder.wf(),
        ensures
            push_result(
                self.builder,
                r.builder,
                crate::pod::spec_pointer_pod(Pointer { type_: typ, ptr: value }),
            ),
            r.builder.wf(),
    {
        StructBuilder { builder: self.builder.push_pointer(typ, value) }
    }

    /// Push a String POD into the scope.
    pub fn push_string(self, value: &str) -> (r: StructBuilder)
        requires
            self.builder.wf(),
            value.spec_bytes().len() < u32::MAX,
        ensures
            push_result(self.builder, r.builder, crate::pod::spec_string_pod(value.spec_bytes())),
            r.builder.wf(),
    {
        StructBuilder { builder: self.builder.push_string(value) }
    }

    /// Push a Bytes POD into the scope.
    pub fn push_bytes(self, value: &[u8]) -> (r: StructBuilder)
        requires
            self.builder.wf(),
            value@.len() <= u32::MAX,
        ensures
            push_result(self.builder, r.builder, crate::pod::spec_bytes_pod(value@)),
            r.builder.wf(),
    {
        StructBuilder { builder: self.builder.push_bytes(value) }
    }

    /// Push an Array POD into the scope.
    pub fn push_array<T: Primitive>(self, values: &[T]) -> (r: StructBuilder)
        requires
            self.builder.wf(),
            8 + values@.len() * T::prim_size() <= u32::MAX,
        ensures
            push_result(self.builder, r.builder, crate::pod::spec_array_pod(values@)),
            r.builder.wf(),
    {
        StructBuilder { builder: self.builder.push_array(values) }
    }

    /// Push a Choice POD into the scope.
    pub fn push_choice<T: Primitive>(self, value: &Choice<T>) -> (r: StructBuilder)
        requires
            self.builder.wf(),
            16 + spec_choice_vals(choice_view(*value)).len() <= u32::MAX,
        ensures
            push_result(self.builder, r.builder, spec_choice_pod(choice_view(*value))),
            r.builder.wf(),
    {
        StructBuilder { builder: self.builder.push_choice(value) }
    }

    /// Open a nested struct scope.
    pub fn push_struct<F: FnOnce(StructBuilder) -> StructBuilder>(self, build_struct: F) -> (r:
        StructBuilder)
        requires
            self.builder.wf(),
            self.builder.error is None && self.builder.data@.len() + 8 <= self.builder.cap
                ==> forall|sub: StructBuilder|
                open_frame(self.builder, 8, sub.builder) ==> #[trigger] call_requires(
                    build_struct,
                    (sub,),
                ),
        ensures
            self.builder.error is Some ==> r.builder == self.builder,
            self.builder.error is None && self.builder.data@.len() + 8 > self.builder.cap
                ==> r.builder.cap == self.builder.cap && r.builder.data@ == self.builder.data@
                && r.builder.error == Option::Some(Error::NoSpace),
            self.builder.error is None && self.builder.data@.len() + 8 <= self.builder.cap
                ==> exists|sub: StructBuilder, out: StructBuilder|
                open_frame(self.builder, 8, sub.builder) && #[trigger] call_ensures(
                    build_struct,
                    (sub,),
                    out,
                ) && struct_close_result(self.builder, out.builder, r.builder),
    {
        StructBuilder { builder: self.builder.push_struct(build_struct) }
    }

    /// Open a nested object scope.
    pub fn push_object<F: FnOnce(ObjectBuilder) -> ObjectBuilder>(
        self,
        type_: ObjectType,
        param_type: u32,
        build_object: F,
    ) -> (r: StructBuilder)
        requires
            self.builder.wf(),
            self.builder.error is None && self.builder.data@.len() + 16 <= self.builder.cap
                ==> forall|sub: ObjectBuilder|
                open_frame(self.builder, 16, sub.builder) ==> #[trigger] call_requires(
                    build_object,
                    (sub,),
                ),
        ensures
            self.builder.error is Some ==> r.builder == self.builder,
            self.builder.error is None && self.builder.data@.len() + 16 > self.builder.cap
                ==> r.builder.cap == self.builder.cap && r.builder.data@ == self.builder.data@
                && r.builder.error == Option::Some(Error::NoSpace),
            self.builder.error is None && self.builder.data@.len() + 16 <= self.builder.cap
                ==> exists|sub: ObjectBuilder, out: ObjectBuilder|
                open_frame(self.builder, 16, sub.builder) && #[trigger] call_ensures(
                    build_object,
                    (sub,),
                    out,
                ) && object_close_result(
                    self.builder,
                    out.builder,
                    r.builder,
                    crate::pod::types::object_type_code(type_),
                    param_type,
                ),
    {
        StructBuilder { builder: self.builder.push_object(type_, param_type, build_object) }
    }
}

impl ObjectBuilder {
    /// Push one property with a fixed-size value POD: the key, the flag
    /// word, then the value.
    pub fn push_property<T: Primitive>(self, key: u32, flags: PropertyFlags, value: &T) -> (r:
        ObjectBuilder)
        requires
            self.builder.wf(),
        ensures
            push_result(self.builder, r.builder, spec_prop(key, flags.0, spec_prim_pod(*value))),
            r.builder.wf(),
    {
        let mut out = u32_to_le_bytes(key);
        let mut fb = u32_to_le_bytes(flags.bits());
        out.append(&mut fb);
        let mut vb = Builder::prim_pod_bytes(value);
        out.append(&mut vb);
        proof {
            assert(out@ =~= spec_prop(key, flags.0, spec_prim_pod(*value)));
        }
        ObjectBuilder { builder: self.builder.append_or_fail(out) }
    }

    /// Push one property whose value is a Choice POD.
    pub fn push_property_choice<T: Primitive>(
        self,
        key: u32,
        flags: PropertyFlags,
        value: &Choice<T>,
    ) -> (r: ObjectBuilder)
        requires
            self.builder.wf(),
            16 + spec_choice_vals(choice_view(*value)).len() <= u32::MAX,
        ensures
            push_result(
                self.builder,
                r.builder,
                spec_prop(key, flags.0, spec_choice_pod(choice_view(*value))),
            ),
            r.builder.wf(),
    {
        let mut out = u32_to_le_bytes(key);
        let mut fb = u32_to_le_bytes(flags.bits());
        out.append(&mut fb);
        let mut vb = Builder::choice_pod_bytes(value);
        out.append(&mut vb);
        proof {
            assert(out@ =~= spec_prop(key, flags.0, spec_choice_pod(choice_view(*value))));
        }
        ObjectBuilder { builder: self.builder.append_or_fail(out) }
    }
}

} // verus!
