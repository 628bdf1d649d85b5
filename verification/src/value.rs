//! The packed one-word value encoding.
//!
//! Every runtime value is a single `u64` word.  Small integers, interned
//! symbols, booleans, nil and the uninitialized marker are stored inline in
//! tagged bit patterns; most floating-point bit patterns are stored inline
//! through a reversible rotation that moves three exponent bits into the tag
//! position; everything else is boxed into the heap arena and the word holds
//! the arena handle.

use vstd::prelude::*;
use crate::ident::IdentId;
use crate::object::ObjectInfo;

verus! {

broadcast use vstd::array::group_array_axioms;


pub const FALSE_VALUE: u64 = 0x00;
pub const UNINITIALIZED: u64 = 0x04;
pub const NIL_VALUE: u64 = 0x08;
pub const TAG_SYMBOL: u64 = 0x0c;
pub const TRUE_VALUE: u64 = 0x14;

/// Inline encoding of the floating-point bit pattern `0x0` (positive zero).
pub const ZERO_FLONUM: u64 = (0b1000u64 << 60) | 0b10;

/// The one nonzero floating-point bit pattern whose rotated form would be
/// exactly `ZERO_FLONUM`; it must be boxed so that decoding stays injective.
pub const ZERO_ALIAS_BITS: u64 = 0x3000_0000_0000_0000;

/// Heap handles are encoded as `8 * index + REF_BASE`, so that a handle word
/// always has its low three bits clear and is larger than every sentinel.
pub const REF_BASE: u64 = 40;

// ---------------------------------------------------------------------------
// Spec-level model of the encoding.
// ---------------------------------------------------------------------------

/// An `i64` fits inline exactly when its top two bits agree, i.e. when it
/// survives the left-shift-by-one used to make room for the tag bit.
pub open spec fn fixnum_encodable(v: i64) -> bool {
    ((v as u64) >> 62) & 0b11 == 0b00 || ((v as u64) >> 62) & 0b11 == 0b11
}

pub open spec fn encode_fixnum(v: i64) -> u64 {
    ((v as u64) << 1) | 1
}

pub open spec fn decode_fixnum(w: u64) -> i64 {
    (if w >> 63 == 1 {
        (w >> 1) | 0x8000_0000_0000_0000
    } else {
        w >> 1
    }) as i64
}

pub open spec fn rotl3(x: u64) -> u64 {
    (x << 3) | (x >> 61)
}

pub open spec fn rotr3(x: u64) -> u64 {
    (x >> 3) | (x << 61)
}

/// A floating-point bit pattern fits inline when its top exponent bits are
/// `011` or `100` (so the rotation frees usable tag bits), except for the one
/// pattern that would alias the zero encoding.  The zero pattern itself is
/// encoded as the reserved `ZERO_FLONUM` word.
pub open spec fn flonum_encodable(bits: u64) -> bool {
    bits == 0 || ((bits >> 60) & 0b111 == 3 || (bits >> 60) & 0b111 == 4) && bits
        != ZERO_ALIAS_BITS
}

pub open spec fn encode_flonum(bits: u64) -> u64 {
    if bits == 0 {
        ZERO_FLONUM
    } else {
        rotl3((bits & !(0b0110u64 << 60)) | (0b0100u64 << 60))
    }
}

pub open spec fn decode_flonum(w: u64) -> u64 {
    if w == ZERO_FLONUM {
        0
    } else if w >> 63 == 0 {
        rotr3(w)
    } else {
        rotr3((w & !0b11u64) | 0b01)
    }
}

pub open spec fn encode_symbol(id: u32) -> u64 {
    ((id as u64) << 32) | TAG_SYMBOL
}

pub open spec fn decode_symbol(w: u64) -> u32 {
    (w >> 32) as u32
}

pub open spec fn encode_ref(idx: nat) -> u64 {
    ((idx as u64) * 8 + REF_BASE) as u64
}

pub open spec fn decode_ref(w: u64) -> nat {
    (((w - REF_BASE) as u64) / 8) as nat
}

pub open spec fn word_is_fixnum(w: u64) -> bool {
    w & 0b1 == 1
}

pub open spec fn word_is_flonum(w: u64) -> bool {
    w & 0b11 == 0b10
}

pub open spec fn word_is_symbol(w: u64) -> bool {
    w & 0xff == TAG_SYMBOL
}

/// Inline (unboxed) words: anything with a low tag bit set, plus the small
/// sentinel band.  Heap handles have their low three bits clear and start at
/// `REF_BASE`, above the sentinels.
pub open spec fn word_is_inline(w: u64) -> bool {
    w & 0b0111 != 0 || w <= 0x20
}

pub open spec fn word_is_ref(w: u64) -> bool {
    !word_is_inline(w)
}

/// The words a well-formed runtime ever stores: a recognised inline pattern,
/// or a handle into a heap of the given length.
pub open spec fn word_wf(w: u64, heap_len: nat) -> bool {
    ||| word_is_fixnum(w)
    ||| word_is_flonum(w)
    ||| word_is_symbol(w)
    ||| w == NIL_VALUE
    ||| w == TRUE_VALUE
    ||| w == FALSE_VALUE
    ||| w == UNINITIALIZED
    ||| word_is_ref(w) && decode_ref(w) < heap_len && w == encode_ref(decode_ref(w))
}

// ---------------------------------------------------------------------------
// Round-trip laws of the inline encodings.
// ---------------------------------------------------------------------------

/// Every integer whose top two bits agree survives the inline encoding
/// unchanged, including the boundary patterns where those bits flip.
pub proof fn lemma_fixnum_roundtrip(v: i64)
    by (bit_vector)
    requires
        fixnum_encodable(v),
    ensures
        decode_fixnum(encode_fixnum(v)) == v,
        word_is_fixnum(encode_fixnum(v)),
{
}

/// Every floating-point bit pattern admitted inline decodes to exactly the
/// bits that were encoded; in particular the zero pattern decodes to the
/// bit pattern of positive zero.
pub proof fn lemma_flonum_roundtrip(bits: u64)
    by (bit_vector)
    requires
        flonum_encodable(bits),
    ensures
        decode_flonum(encode_flonum(bits)) == bits,
        word_is_flonum(encode_flonum(bits)),
        !word_is_fixnum(encode_flonum(bits)),
{
}

/// The sentinel words are none of the tagged inline classes.
pub proof fn lemma_sentinels()
    by (bit_vector)
    ensures
        !word_is_fixnum(NIL_VALUE) && !word_is_flonum(NIL_VALUE) && !word_is_symbol(NIL_VALUE),
        !word_is_fixnum(TRUE_VALUE) && !word_is_flonum(TRUE_VALUE) && !word_is_symbol(TRUE_VALUE),
        !word_is_fixnum(FALSE_VALUE) && !word_is_flonum(FALSE_VALUE) && !word_is_symbol(
            FALSE_VALUE,
        ),
        !word_is_fixnum(UNINITIALIZED) && !word_is_flonum(UNINITIALIZED) && !word_is_symbol(
            UNINITIALIZED,
        ),
        word_is_inline(NIL_VALUE) && word_is_inline(TRUE_VALUE) && word_is_inline(FALSE_VALUE)
            && word_is_inline(UNINITIALIZED),
{
}

/// Symbol identifiers survive the inline encoding, and a symbol word is
/// never mistaken for a number.
pub proof fn lemma_symbol_roundtrip(id: u32)
    by (bit_vector)
    ensures
        decode_symbol(encode_symbol(id)) == id,
        word_is_symbol(encode_symbol(id)),
        !word_is_fixnum(encode_symbol(id)),
        !word_is_flonum(encode_symbol(id)),
        encode_symbol(id) != NIL_VALUE,
        encode_symbol(id) != TRUE_VALUE,
        encode_symbol(id) != FALSE_VALUE,
        encode_symbol(id) != UNINITIALIZED,
        word_is_inline(encode_symbol(id)),
{
}

// ---------------------------------------------------------------------------
// The logical value type.
// ---------------------------------------------------------------------------

/// A runtime value in its logical form.  Floating-point payloads are kept as
/// their raw bit patterns; the encoding treats them purely as bits.
#[derive(Debug, Clone, PartialEq)]
#[verifier::ext_equal]
pub enum Value {
    Uninitialized,
    Nil,
    Bool(bool),
    FixNum(i64),
    FloatNum(u64),
    String(String),
    Symbol(IdentId),
    Object(ObjectInfo),
    Char(u8),
}

/// A runtime value packed into one machine word.
#[derive(Clone, Copy, Debug, PartialEq, Eq, Hash, Structural)]
pub struct PackedValue(pub u64);

impl PackedValue {
    pub open spec fn spec_nil() -> PackedValue {
        PackedValue(NIL_VALUE)
    }

    pub open spec fn spec_true() -> PackedValue {
        PackedValue(TRUE_VALUE)
    }

    pub open spec fn spec_false() -> PackedValue {
        PackedValue(FALSE_VALUE)
    }

    pub open spec fn spec_uninitialized() -> PackedValue {
        PackedValue(UNINITIALIZED)
    }

    /// The raw word: object identity.
    pub fn id(&self) -> (r: u64)
        ensures
            r == self.0,
    {
        self.0
    }

    pub fn uninitialized() -> (r: PackedValue)
        ensures
            r == PackedValue::spec_uninitialized(),
    {
        PackedValue(UNINITIALIZED)
    }

    pub fn nil() -> (r: PackedValue)
        ensures
            r == PackedValue::spec_nil(),
    {
        PackedValue(NIL_VALUE)
    }

    pub fn true_val() -> (r: PackedValue)
        ensures
            r == PackedValue::spec_true(),
    {
        PackedValue(TRUE_VALUE)
    }

    pub fn false_val() -> (r: PackedValue)
        ensures
            r == PackedValue::spec_false(),
    {
        PackedValue(FALSE_VALUE)
    }

    pub fn bool(b: bool) -> (r: PackedValue)
        ensures
            r == if b {
                PackedValue::spec_true()
            } else {
                PackedValue::spec_false()
            },
    {
        if b {
            PackedValue(TRUE_VALUE)
        } else {
            PackedValue(FALSE_VALUE)
        }
    }

    pub fn symbol(id: IdentId) -> (r: PackedValue)
        ensures
            r.0 == encode_symbol(id.0),
            word_is_symbol(r.0),
            decode_symbol(r.0) == id.0,
            !word_is_fixnum(r.0),
            !word_is_flonum(r.0),
            word_is_inline(r.0),
    {
        proof {
            lemma_symbol_roundtrip(id.0);
        }
        PackedValue(((id.0 as u64) << 32) | TAG_SYMBOL)
    }

    pub fn is_packed_fixnum(&self) -> (r: bool)
        ensures
            r == word_is_fixnum(self.0),
    {
        self.0 & 0b1 == 1
    }

    /// True of both inline numbers: integers and floating-point.
    pub fn is_packed_num(&self) -> (r: bool)
        ensures
            r == (word_is_fixnum(self.0) || word_is_flonum(self.0)),
    {
        let w = self.0;
        proof {
            assert((w & 0b11 != 0) == (w & 0b1 == 1 || w & 0b11 == 0b10)) by (bit_vector);
        }
        w & 0b11 != 0
    }

    pub fn is_packed_symbol(&self) -> (r: bool)
        ensures
            r == word_is_symbol(self.0),
    {
        self.0 & 0xff == TAG_SYMBOL
    }

    pub fn is_uninitialized(&self) -> (r: bool)
        ensures
            r == (self.0 == UNINITIALIZED),
    {
        self.0 == UNINITIALIZED
    }

    pub fn is_nil(&self) -> (r: bool)
        ensures
            r == (self.0 == NIL_VALUE),
    {
        self.0 == NIL_VALUE
    }

    pub fn is_true_val(&self) -> (r: bool)
        ensures
            r == (self.0 == TRUE_VALUE),
    {
        self.0 == TRUE_VALUE
    }

    pub fn is_false_val(&self) -> (r: bool)
        ensures
            r == (self.0 == FALSE_VALUE),
    {
        self.0 == FALSE_VALUE
    }

    /// True of every inline word; false exactly of heap handles.
    pub fn is_packed_value(&self) -> (r: bool)
        ensures
            r == word_is_inline(self.0),
    {
        self.0 & 0b0111 != 0 || self.0 <= 0x20
    }

    pub fn as_packed_fixnum(&self) -> (r: i64)
        ensures
            r == decode_fixnum(self.0),
    {
        let w = self.0;
        let u: u64 = if w >> 63 == 1 {
            (w >> 1) | 0x8000_0000_0000_0000
        } else {
            w >> 1
        };
        u as i64
    }

    /// The floating-point bit pattern held by an inline float word.
    pub fn as_packed_flonum_bits(&self) -> (r: u64)
        ensures
            r == decode_flonum(self.0),
    {
        if self.0 == ZERO_FLONUM {
            return 0;
        }
        let num: u64 = if self.0 >> 63 == 0 {
            self.0
        } else {
            (self.0 & !0b11u64) | 0b01
        };
        (num >> 3) | (num << 61)
    }

    pub fn as_packed_symbol(&self) -> (r: IdentId)
        ensures
            r.0 == decode_symbol(self.0),
    {
        IdentId((self.0 >> 32) as u32)
    }

    pub fn as_symbol(&self) -> (r: Option<IdentId>)
        ensures
            r == if word_is_symbol(self.0) {
                Some(IdentId(decode_symbol(self.0)))
            } else {
                None::<IdentId>
            },
    {
        if self.is_packed_symbol() {
            Some(self.as_packed_symbol())
        } else {
            None
        }
    }
}

// ---------------------------------------------------------------------------
// The argument package.
// ---------------------------------------------------------------------------

/// How many arguments are stored without a heap allocation.
pub const VEC_ARRAY_SIZE: usize = 8;

/// The ordered argument package of one call: up to `VEC_ARRAY_SIZE` values
/// inline, transparently spilling to a heap-backed vector beyond that.
#[derive(Debug)]
pub enum VecArray {
    Array { len: usize, ary: [PackedValue; 8] },
    Spilled(Vec<PackedValue>),
}

impl View for VecArray {
    type V = Seq<PackedValue>;

    open spec fn view(&self) -> Seq<PackedValue> {
        match self {
            VecArray::Array { len, ary } => ary@.take(len as int),
            VecArray::Spilled(v) => v@,
        }
    }
}

impl VecArray {
    pub open spec fn wf(self) -> bool {
        match self {
            VecArray::Array { len, ary } => len <= 8,
            VecArray::Spilled(v) => true,
        }
    }

    /// A package of `len` uninitialized slots.
    pub fn new(len: usize) -> (r: VecArray)
        ensures
            r.wf(),
            r@.len() == len,
            forall|i: int| 0 <= i < len ==> r@[i] == PackedValue::spec_uninitialized(),
    {
        if len <= VEC_ARRAY_SIZE {
            let r = VecArray::Array {
                len,
                ary: vstd::array::array_fill_for_copy_types(PackedValue::uninitialized()),
            };
            proof {
                assert forall|i: int| 0 <= i < len implies r@[i]
                    == PackedValue::spec_uninitialized() by {}
            }
            r
        } else {
            let v: Vec<PackedValue> = vec![PackedValue::uninitialized(); len];
            VecArray::Spilled(v)
        }
    }

    pub fn new0() -> (r: VecArray)
        ensures
            r.wf(),
            r@ == Seq::<PackedValue>::empty(),
    {
        let r = VecArray::Array {
            len: 0,
            ary: vstd::array::array_fill_for_copy_types(PackedValue::uninitialized()),
        };
        proof {
            assert(r@ =~= Seq::<PackedValue>::empty());
        }
        r
    }

    pub fn new1(arg: PackedValue) -> (r: VecArray)
        ensures
            r.wf(),
            r@ == seq![arg],
    {
        let mut r = VecArray::new0();
        r.push(arg);
        proof {
            assert(r@ =~= seq![arg]);
        }
        r
    }

    pub fn new2(arg0: PackedValue, arg1: PackedValue) -> (r: VecArray)
        ensures
            r.wf(),
            r@ == seq![arg0, arg1],
    {
        let mut r = VecArray::new0();
        r.push(arg0);
        r.push(arg1);
        proof {
            assert(r@ =~= seq![arg0, arg1]);
        }
        r
    }

    pub fn len(&self) -> (r: usize)
        requires
            self.wf(),
        ensures
            r == self@.len(),
    {
        match self {
            VecArray::Array { len, .. } => *len,
            VecArray::Spilled(v) => v.len(),
        }
    }

    pub fn get(&self, index: usize) -> (r: PackedValue)
        requires
            self.wf(),
            index < self@.len(),
        ensures
            r == self@[index as int],
    {
        match self {
            VecArray::Array { ary, .. } => ary[index],
            VecArray::Spilled(v) => v[index],
        }
    }

    /// The values of positions `start..end`, as a fresh vector.
    pub fn get_slice(&self, start: usize, end: usize) -> (r: Vec<PackedValue>)
        requires
            self.wf(),
            start <= end <= self@.len(),
        ensures
            r@ == self@.subrange(start as int, end as int),
    {
        let mut out: Vec<PackedValue> = Vec::new();
        let mut i = start;
        while i < end
            invariant
                self.wf(),
                start <= i <= end <= self@.len(),
                out@ == self@.subrange(start as int, i as int),
            decreases end - i,
        {
            out.push(self.get(i));
            proof {
                assert(self@.subrange(start as int, i as int + 1) =~= self@.subrange(
                    start as int,
                    i as int,
                ).push(self@[i as int]));
            }
            i += 1;
        }
        out
    }

    /// Appends one value.  The spill from the inline form to the heap-backed
    /// form is invisible: indexing and length behave identically across it,
    /// and no value is dropped or duplicated.
    pub fn push(&mut self, val: PackedValue)
        requires
            old(self).wf(),
            old(self)@.len() < usize::MAX,
        ensures
            final(self).wf(),
            final(self)@ == old(self)@.push(val),
    {
        let needs_spill = match &*self {
            VecArray::Array { len, .. } => *len == VEC_ARRAY_SIZE,
            VecArray::Spilled(_) => false,
        };
        if needs_spill {
            let n = self.len();
            let mut v = self.get_slice(0, n);
            proof {
                assert(v@ =~= old(self)@);
            }
            v.push(val);
            *self = VecArray::Spilled(v);
        } else {
            match self {
                VecArray::Spilled(v) => {
                    v.push(val);
                },
                VecArray::Array { len, ary } => {
                    ary[*len] = val;
                    proof {
                        assert(ary@.take(*len as int + 1) =~= old(self)@.push(val));
                    }
                    *len = *len + 1;
                },
            }
        }
    }
}

/// Heap handles are disjoint from every inline pattern and decode back to
/// the index they were built from.
pub proof fn lemma_ref_roundtrip(idx: u64)
    by (bit_vector)
    requires
        idx < 0x1000_0000_0000_0000,
    ensures
        decode_ref((idx * 8 + REF_BASE) as u64) == idx,
        !word_is_inline((idx * 8 + REF_BASE) as u64),
        !word_is_fixnum((idx * 8 + REF_BASE) as u64),
        !word_is_flonum((idx * 8 + REF_BASE) as u64),
        !word_is_symbol((idx * 8 + REF_BASE) as u64),
{
}

} // verus!
