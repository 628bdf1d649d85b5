//! The shared runtime state: the heap arena, the side arenas for class
//! records and specialised payloads, the identifier table, the global method
//! table, and the values of the built-in classes.
//!
//! One well-formedness invariant ties them together: every stored word is
//! either inline or a live handle, every cross-arena handle is in bounds,
//! and every superclass link points to an earlier class record, which makes
//! every superclass chain finite.

use vstd::prelude::*;
use crate::ident::{IdentId, IdentTable};
use crate::idmap::IdMap;
use crate::method::{GlobalMethodTable, ISeqInfo, MethodInfo, MethodRef};
use crate::object::{
    ArrayInfo, ClassInfo, ClassRef, HashInfo, MethodObjInfo, ObjKind, ObjectInfo, ObjectRef,
    RegexpInfo,
};
use crate::value::{
    decode_ref, encode_ref, word_is_ref, word_wf, PackedValue, Value, NIL_VALUE, REF_BASE,
};

verus! {

/// Upper bound on the number of heap objects: far beyond what fits in
/// memory, and small enough that a handle word never overflows.
pub const HEAP_CAP: usize = 0x4000_0000;

pub struct Globals {
    pub idents: IdentTable,
    pub methods: GlobalMethodTable,
    pub heap: Vec<Value>,
    pub classes: Vec<ClassInfo>,
    pub arrays: Vec<ArrayInfo>,
    pub hashes: Vec<HashInfo>,
    pub regexps: Vec<RegexpInfo>,
    pub methodobjs: Vec<MethodObjInfo>,
    pub iseqs: Vec<ISeqInfo>,
    pub object: PackedValue,
    pub module_class: PackedValue,
    pub class_class: PackedValue,
    pub integer: PackedValue,
    pub string: PackedValue,
    pub array: PackedValue,
    pub initialize_id: IdentId,
}

impl Globals {
    // -----------------------------------------------------------------
    // The well-formedness invariant.
    // -----------------------------------------------------------------

    /// The word is inline or a live heap handle.
    pub open spec fn word_ok(self, w: u64) -> bool {
        word_wf(w, self.heap@.len())
    }

    pub open spec fn kind_ok(self, k: ObjKind) -> bool {
        match k {
            ObjKind::Ordinary => true,
            ObjKind::Class(c) => c.0 < self.classes@.len(),
            ObjKind::Module(c) => c.0 < self.classes@.len(),
            ObjKind::Array(a) => a.0 < self.arrays@.len(),
            ObjKind::SplatArray(a) => a.0 < self.arrays@.len(),
            ObjKind::Hash(h) => h.0 < self.hashes@.len(),
            ObjKind::Range(ri) => self.word_ok(ri.start.0) && self.word_ok(ri.end.0),
            ObjKind::Method(m) => m.0 < self.methodobjs@.len(),
            ObjKind::Regexp(r) => r.0 < self.regexps@.len(),
        }
    }

    pub open spec fn obj_ok(self, o: ObjectInfo) -> bool {
        &&& self.word_ok(o.class.0)
        &&& o.var_table.wf()
        &&& forall|j: int|
            0 <= j < o.var_table.entries@.len() ==> self.word_ok(
                (#[trigger] o.var_table.entries@[j]).1.0,
            ) && o.var_table.entries@[j].0.0 < self.idents.names@.len()
        &&& self.kind_ok(o.kind)
    }

    pub open spec fn val_ok(self, v: Value) -> bool {
        match v {
            Value::Object(o) => self.obj_ok(o),
            _ => true,
        }
    }

    /// A class record at index `i`: tables well-formed, method handles
    /// live, the superclass strictly earlier in the arena, and the class
    /// object (when set) a class-kind heap object that points back here.
    pub open spec fn class_ok(self, i: int) -> bool {
        let c = self.classes@[i];
        &&& c.instance_method.wf()
        &&& forall|j: int|
            0 <= j < c.instance_method.entries@.len() ==> (
            #[trigger] c.instance_method.entries@[j]).1.0 < self.methods.table@.len()
        &&& c.class_method.wf()
        &&& forall|j: int|
            0 <= j < c.class_method.entries@.len() ==> (
            #[trigger] c.class_method.entries@[j]).1.0 < self.methods.table@.len()
        &&& match c.superclass {
            Some(s) => s.0 < i,
            None => true,
        }
        &&& forall|j: int| 0 <= j < c.included@.len() ==> self.word_ok((#[trigger] c.included@[j]).0)
        &&& (c.object.0 == NIL_VALUE || (self.is_class_word(c.object.0) && self.word_cref(
            c.object.0,
        ).0 == i))
    }

    pub open spec fn aryinfo_ok(self, a: ArrayInfo) -> bool {
        forall|j: int| 0 <= j < a.elements@.len() ==> self.word_ok((#[trigger] a.elements@[j]).0)
    }

    pub open spec fn hashinfo_ok(self, h: HashInfo) -> bool {
        forall|j: int|
            0 <= j < h.pairs@.len() ==> self.word_ok((#[trigger] h.pairs@[j]).0.0) && self.word_ok(
                h.pairs@[j].1.0,
            )
    }

    pub open spec fn mobj_ok(self, m: MethodObjInfo) -> bool {
        self.word_ok(m.receiver.0) && m.method.0 < self.methods.table@.len()
    }

    pub open spec fn methodinfo_ok(self, mi: MethodInfo) -> bool {
        match mi {
            MethodInfo::RubyFunc { iseq } => iseq.0 < self.iseqs@.len(),
            MethodInfo::AttrReader { id } => id.0 < self.idents.names@.len(),
            MethodInfo::AttrWriter { id } => id.0 < self.idents.names@.len(),
            _ => true,
        }
    }

    /// The heap object a handle word points at.
    pub open spec fn heap_at(self, w: u64) -> Value {
        self.heap@[decode_ref(w) as int]
    }

    /// The word is a live handle to a class or module object.
    pub open spec fn is_class_word(self, w: u64) -> bool {
        &&& word_is_ref(w)
        &&& w == encode_ref(decode_ref(w))
        &&& decode_ref(w) < self.heap@.len()
        &&& self.heap_at(w) matches Value::Object(o) && (o.kind matches ObjKind::Class(_)
            || o.kind matches ObjKind::Module(_))
    }

    /// The class record behind a class or module value.
    pub open spec fn word_cref(self, w: u64) -> ClassRef {
        match self.heap_at(w) {
            Value::Object(o) => match o.kind {
                ObjKind::Class(c) => c,
                ObjKind::Module(c) => c,
                _ => ClassRef(0),
            },
            _ => ClassRef(0),
        }
    }

    /// Arena consistency, without the built-in class fields.
    pub open spec fn wf0(self) -> bool {
        &&& self.idents.wf()
        &&& self.methods.wf()
        &&& self.heap@.len() <= HEAP_CAP
        &&& forall|i: int| 0 <= i < self.heap@.len() ==> self.val_ok(#[trigger] self.heap@[i])
        &&& forall|i: int| 0 <= i < self.classes@.len() ==> self.class_ok(i)
        &&& forall|i: int| 0 <= i < self.arrays@.len() ==> self.aryinfo_ok(#[trigger] self.arrays@[i])
        &&& forall|i: int|
            0 <= i < self.hashes@.len() ==> self.hashinfo_ok(#[trigger] self.hashes@[i])
        &&& forall|i: int|
            0 <= i < self.methodobjs@.len() ==> self.mobj_ok(#[trigger] self.methodobjs@[i])
        &&& forall|i: int|
            0 <= i < self.methods.table@.len() ==> self.methodinfo_ok(
                #[trigger] self.methods.table@[i],
            )
        &&& forall|i: int| 0 <= i < self.iseqs@.len() ==> (#[trigger] self.iseqs@[i]).wf()
    }

    /// The built-in class fields hold class values.
    pub open spec fn builtins_ok(self) -> bool {
        &&& self.is_class_word(self.object.0)
        &&& self.is_class_word(self.module_class.0)
        &&& self.is_class_word(self.class_class.0)
        &&& self.is_class_word(self.integer.0)
        &&& self.is_class_word(self.string.0)
        &&& self.is_class_word(self.array.0)
    }

    pub open spec fn wf(self) -> bool {
        self.wf0() && self.builtins_ok()
    }

    pub open spec fn spec_can_alloc(self) -> bool {
        self.heap@.len() < HEAP_CAP
    }

    /// Whether there is room for one more heap object.
    pub fn can_alloc(&self) -> (r: bool)
        ensures
            r == self.spec_can_alloc(),
    {
        self.heap.len() < HEAP_CAP
    }

    // -----------------------------------------------------------------
    // Decoding a word against this state.
    // -----------------------------------------------------------------

    /// The logical value a word denotes: the inline decodings, or the heap
    /// entry it points at.
    pub open spec fn spec_unpack(self, w: u64) -> Value {
        if crate::value::word_is_fixnum(w) {
            Value::FixNum(crate::value::decode_fixnum(w))
        } else if crate::value::word_is_flonum(w) {
            Value::FloatNum(crate::value::decode_flonum(w))
        } else if crate::value::word_is_symbol(w) {
            Value::Symbol(IdentId(crate::value::decode_symbol(w)))
        } else if w == NIL_VALUE {
            Value::Nil
        } else if w == crate::value::TRUE_VALUE {
            Value::Bool(true)
        } else if w == crate::value::FALSE_VALUE {
            Value::Bool(false)
        } else if w == crate::value::UNINITIALIZED {
            Value::Uninitialized
        } else {
            self.heap@[decode_ref(w) as int]
        }
    }
}

// ---------------------------------------------------------------------------
// Growth preserves well-formedness.
// ---------------------------------------------------------------------------

/// All arenas of `g2` extend those of `g1`: same prefix, anything new.
pub open spec fn extends(g1: Globals, g2: Globals) -> bool {
    &&& g1.heap@.is_prefix_of(g2.heap@)
    &&& g1.classes@.is_prefix_of(g2.classes@)
    &&& g1.arrays@.is_prefix_of(g2.arrays@)
    &&& g1.hashes@.is_prefix_of(g2.hashes@)
    &&& g1.regexps@.is_prefix_of(g2.regexps@)
    &&& g1.methodobjs@.is_prefix_of(g2.methodobjs@)
    &&& g1.iseqs@.is_prefix_of(g2.iseqs@)
    &&& g1.methods.table@.is_prefix_of(g2.methods.table@)
    &&& g1.idents.names@.len() <= g2.idents.names@.len()
}

/// The built-in class fields are the same values.
pub open spec fn same_builtins(g1: Globals, g2: Globals) -> bool {
    &&& g2.object == g1.object
    &&& g2.module_class == g1.module_class
    &&& g2.class_class == g1.class_class
    &&& g2.integer == g1.integer
    &&& g2.string == g1.string
    &&& g2.array == g1.array
    &&& g2.initialize_id == g1.initialize_id
}

/// Everything that holds of a word, value or record under `g1` still holds
/// under any extension `g2`.
pub proof fn lemma_extends_ok(g1: Globals, g2: Globals)
    requires
        extends(g1, g2),
    ensures
        forall|w: u64| g1.word_ok(w) ==> g2.word_ok(w),
        forall|k: ObjKind| g1.kind_ok(k) ==> g2.kind_ok(k),
        forall|o: ObjectInfo| g1.obj_ok(o) ==> g2.obj_ok(o),
        forall|v: Value| g1.val_ok(v) ==> g2.val_ok(v),
        forall|a: ArrayInfo| g1.aryinfo_ok(a) ==> g2.aryinfo_ok(a),
        forall|h: HashInfo| g1.hashinfo_ok(h) ==> g2.hashinfo_ok(h),
        forall|m: MethodObjInfo| g1.mobj_ok(m) ==> g2.mobj_ok(m),
        forall|mi: MethodInfo| g1.methodinfo_ok(mi) ==> g2.methodinfo_ok(mi),
        forall|w: u64| g1.is_class_word(w) ==> g2.is_class_word(w) && g2.word_cref(w) == g1.word_cref(w),
{
    assert forall|w: u64| g1.word_ok(w) implies g2.word_ok(w) by {
        assert(g1.heap@.len() <= g2.heap@.len());
    }
    assert forall|w: u64| g1.is_class_word(w) implies g2.is_class_word(w) && g2.word_cref(w)
        == g1.word_cref(w) by {
        assert(g2.heap@[decode_ref(w) as int] == g1.heap@[decode_ref(w) as int]);
    }
    assert forall|o: ObjectInfo| g1.obj_ok(o) implies g2.obj_ok(o) by {
        assert forall|j: int| 0 <= j < o.var_table.entries@.len() implies g2.word_ok(
            (#[trigger] o.var_table.entries@[j]).1.0,
        ) && o.var_table.entries@[j].0.0 < g2.idents.names@.len() by {
            assert(g1.word_ok(o.var_table.entries@[j].1.0));
        }
    }
}

/// A state that extends a well-formed state, whose new entries are all
/// well-formed in the new state, and whose class records are unchanged,
/// is well-formed again.
pub proof fn lemma_wf0_extend(g1: Globals, g2: Globals)
    requires
        g1.wf0(),
        extends(g1, g2),
        g2.idents.wf(),
        g2.methods.wf(),
        g2.heap@.len() <= HEAP_CAP,
        forall|i: int|
            g1.heap@.len() <= i < g2.heap@.len() ==> g2.val_ok(#[trigger] g2.heap@[i]),
        forall|i: int| g1.classes@.len() <= i < g2.classes@.len() ==> g2.class_ok(i),
        forall|i: int|
            g1.arrays@.len() <= i < g2.arrays@.len() ==> g2.aryinfo_ok(#[trigger] g2.arrays@[i]),
        forall|i: int|
            g1.hashes@.len() <= i < g2.hashes@.len() ==> g2.hashinfo_ok(#[trigger] g2.hashes@[i]),
        forall|i: int|
            g1.methodobjs@.len() <= i < g2.methodobjs@.len() ==> g2.mobj_ok(
                #[trigger] g2.methodobjs@[i],
            ),
        forall|i: int|
            g1.methods.table@.len() <= i < g2.methods.table@.len() ==> g2.methodinfo_ok(
                #[trigger] g2.methods.table@[i],
            ),
        forall|i: int| g1.iseqs@.len() <= i < g2.iseqs@.len() ==> (#[trigger] g2.iseqs@[i]).wf(),
    ensures
        g2.wf0(),
{
    lemma_extends_ok(g1, g2);
    assert forall|i: int| 0 <= i < g2.heap@.len() implies g2.val_ok(#[trigger] g2.heap@[i]) by {
        if i < g1.heap@.len() {
            assert(g2.heap@[i] == g1.heap@[i]);
            assert(g1.val_ok(g1.heap@[i]));
        }
    }
    assert forall|i: int| 0 <= i < g2.classes@.len() implies g2.class_ok(i) by {
        if i < g1.classes@.len() {
            assert(g2.classes@[i] == g1.classes@[i]);
            assert(g1.class_ok(i));
            let c = g1.classes@[i];
            assert forall|j: int|
                0 <= j < c.instance_method.entries@.len() implies (
            #[trigger] c.instance_method.entries@[j]).1.0 < g2.methods.table@.len() by {
                assert(c.instance_method.entries@[j].1.0 < g1.methods.table@.len());
            }
            assert forall|j: int|
                0 <= j < c.class_method.entries@.len() implies (
            #[trigger] c.class_method.entries@[j]).1.0 < g2.methods.table@.len() by {
                assert(c.class_method.entries@[j].1.0 < g1.methods.table@.len());
            }
            assert forall|j: int| 0 <= j < c.included@.len() implies g2.word_ok(
                (#[trigger] c.included@[j]).0,
            ) by {
                assert(g1.word_ok(c.included@[j].0));
            }
        }
    }
    assert forall|i: int| 0 <= i < g2.arrays@.len() implies g2.aryinfo_ok(
        #[trigger] g2.arrays@[i],
    ) by {
        if i < g1.arrays@.len() {
            assert(g2.arrays@[i] == g1.arrays@[i]);
            assert(g1.aryinfo_ok(g1.arrays@[i]));
        }
    }
    assert forall|i: int| 0 <= i < g2.hashes@.len() implies g2.hashinfo_ok(
        #[trigger] g2.hashes@[i],
    ) by {
        if i < g1.hashes@.len() {
            assert(g2.hashes@[i] == g1.hashes@[i]);
            assert(g1.hashinfo_ok(g1.hashes@[i]));
        }
    }
    assert forall|i: int| 0 <= i < g2.methodobjs@.len() implies g2.mobj_ok(
        #[trigger] g2.methodobjs@[i],
    ) by {
        if i < g1.methodobjs@.len() {
            assert(g2.methodobjs@[i] == g1.methodobjs@[i]);
            assert(g1.mobj_ok(g1.methodobjs@[i]));
        }
    }
    assert forall|i: int| 0 <= i < g2.methods.table@.len() implies g2.methodinfo_ok(
        #[trigger] g2.methods.table@[i],
    ) by {
        if i < g1.methods.table@.len() {
            assert(g2.methods.table@[i] == g1.methods.table@[i]);
            assert(g1.methodinfo_ok(g1.methods.table@[i]));
        }
    }
    assert forall|i: int| 0 <= i < g2.iseqs@.len() implies (#[trigger] g2.iseqs@[i]).wf() by {
        if i < g1.iseqs@.len() {
            assert(g2.iseqs@[i] == g1.iseqs@[i]);
        }
    }
}

impl Globals {
    // -----------------------------------------------------------------
    // Allocation.
    // -----------------------------------------------------------------

    /// Boxes a value into the heap arena and hands back its handle word.
    pub fn box_value(&mut self, v: Value) -> (r: PackedValue)
        requires
            old(self).wf0(),
            old(self).spec_can_alloc(),
            old(self).val_ok(v),
        ensures
            final(self).wf0(),
            crate::vm::grows(*old(self), *final(self)),
            final(self).heap@ == old(self).heap@.push(v),
            final(self).classes == old(self).classes,
            final(self).arrays == old(self).arrays,
            final(self).hashes == old(self).hashes,
            final(self).regexps == old(self).regexps,
            final(self).methodobjs == old(self).methodobjs,
            final(self).iseqs == old(self).iseqs,
            final(self).methods == old(self).methods,
            final(self).idents == old(self).idents,
            same_builtins(*old(self), *final(self)),
            r.0 == encode_ref(old(self).heap@.len()),
            word_is_ref(r.0),
            final(self).word_ok(r.0),
            decode_ref(r.0) == old(self).heap@.len(),
            final(self).spec_unpack(r.0) == v,
            old(self).builtins_ok() ==> final(self).builtins_ok(),
    {
        let idx = self.heap.len();
        proof {
            crate::value::lemma_ref_roundtrip(idx as u64);
        }
        let w = (idx as u64) * 8 + REF_BASE;
        self.heap.push(v);
        proof {
            let g1 = *old(self);
            let g2 = *self;
            assert(extends(g1, g2));
            lemma_extends_ok(g1, g2);
            lemma_wf0_extend(g1, g2);
            if g1.builtins_ok() {
                assert(g2.builtins_ok());
            }
        }
        PackedValue(w)
    }
}

// ---------------------------------------------------------------------------
// Deep copies with exact contracts.
// ---------------------------------------------------------------------------

/// Copies a vector of copyable values.
pub fn copy_vec<T: Copy>(v: &Vec<T>) -> (r: Vec<T>)
    ensures
        r@ == v@,
{
    let mut out: Vec<T> = Vec::new();
    let n = v.len();
    let mut i: usize = 0;
    while i < n
        invariant
            n == v@.len(),
            i <= n,
            out@ == v@.take(i as int),
        decreases n - i,
    {
        out.push(v[i]);
        proof {
            assert(v@.take(i as int + 1) =~= v@.take(i as int).push(v@[i as int]));
        }
        i += 1;
    }
    proof {
        assert(v@.take(n as int) =~= v@);
    }
    out
}

/// Structural equality of values up to container views: two object
/// envelopes are alike when their classes, kinds and variable-table entry
/// sequences agree; everything else is plain equality.
pub open spec fn val_like(a: Value, b: Value) -> bool {
    match (a, b) {
        (Value::Object(o1), Value::Object(o2)) => o1.class == o2.class && o1.kind == o2.kind
            && o1.var_table.entries@ == o2.var_table.entries@,
        _ => a == b,
    }
}

/// Copies an object envelope, field for field.
pub fn clone_object(o: &ObjectInfo) -> (r: ObjectInfo)
    ensures
        r.class == o.class,
        r.kind == o.kind,
        r.var_table.entries@ == o.var_table.entries@,
{
    ObjectInfo {
        class: o.class,
        var_table: IdMap { entries: copy_vec(&o.var_table.entries) },
        kind: o.kind,
    }
}

/// Copies a logical value, structurally.
pub fn clone_value(v: &Value) -> (r: Value)
    ensures
        val_like(r, *v),
{
    match v {
        Value::Uninitialized => Value::Uninitialized,
        Value::Nil => Value::Nil,
        Value::Bool(b) => Value::Bool(*b),
        Value::FixNum(n) => Value::FixNum(*n),
        Value::FloatNum(bits) => Value::FloatNum(*bits),
        Value::String(s) => Value::String(s.clone()),
        Value::Symbol(id) => Value::Symbol(*id),
        Value::Char(c) => Value::Char(*c),
        Value::Object(o) => Value::Object(clone_object(o)),
    }
}

// ---------------------------------------------------------------------------
// Packing and unpacking against the heap.
// ---------------------------------------------------------------------------

impl Value {
    /// Packs this value into one word, boxing what has no inline form.
    /// Decoding the word against the resulting state gives the value back:
    /// integers of every magnitude and floating-point bit patterns
    /// round-trip exactly, the zero float pattern included.
    pub fn pack(self, globals: &mut Globals) -> (r: PackedValue)
        requires
            old(globals).wf0(),
            old(globals).spec_can_alloc(),
            old(globals).val_ok(self),
        ensures
            final(globals).wf0(),
            crate::vm::grows(*old(globals), *final(globals)),
            extends(*old(globals), *final(globals)),
            final(globals).classes == old(globals).classes,
            same_builtins(*old(globals), *final(globals)),
            old(globals).builtins_ok() ==> final(globals).builtins_ok(),
            final(globals).word_ok(r.0),
            final(globals).spec_unpack(r.0) == self,
            self == Value::Nil ==> r == PackedValue::spec_nil(),
            self == Value::Bool(true) ==> r == PackedValue::spec_true(),
            self == Value::Bool(false) ==> r == PackedValue::spec_false(),
            self == Value::Uninitialized ==> r == PackedValue::spec_uninitialized(),
            (self matches Value::FixNum(_)) && crate::value::fixnum_encodable(self->FixNum_0)
                ==> r.0 == crate::value::encode_fixnum(self->FixNum_0),
            (self matches Value::FloatNum(_)) && crate::value::flonum_encodable(self->FloatNum_0)
                ==> r.0 == crate::value::encode_flonum(self->FloatNum_0),
            self matches Value::Symbol(_) ==> r.0 == crate::value::encode_symbol(
                (self->Symbol_0).0,
            ),
    {
        proof {
            crate::value::lemma_sentinels();
        }
        let r = match self {
            Value::Uninitialized => PackedValue::uninitialized(),
            Value::Nil => PackedValue::nil(),
            Value::Bool(b) => PackedValue::bool(b),
            Value::FixNum(num) => {
                let top = ((num as u64) >> 62) & 0b11;
                if top == 0b00 || top == 0b11 {
                    proof {
                        crate::value::lemma_fixnum_roundtrip(num);
                    }
                    PackedValue(((num as u64) << 1) | 1)
                } else {
                    globals.box_value(Value::FixNum(num))
                }
            },
            Value::FloatNum(bits) => {
                let exp = (bits >> 60) & 0b111;
                if bits == 0 || ((exp == 3 || exp == 4) && bits != crate::value::ZERO_ALIAS_BITS) {
                    proof {
                        crate::value::lemma_flonum_roundtrip(bits);
                    }
                    if bits == 0 {
                        PackedValue(crate::value::ZERO_FLONUM)
                    } else {
                        let m = (bits & !(0b0110u64 << 60)) | (0b0100u64 << 60);
                        PackedValue((m << 3) | (m >> 61))
                    }
                } else {
                    globals.box_value(Value::FloatNum(bits))
                }
            },
            Value::Symbol(id) => PackedValue::symbol(id),
            Value::String(s) => globals.box_value(Value::String(s)),
            Value::Char(c) => globals.box_value(Value::Char(c)),
            Value::Object(o) => globals.box_value(Value::Object(o)),
        };
        proof {
            assert(extends(*old(globals), *final(globals)));
        }
        r
    }
}

impl PackedValue {
    /// Decodes this word back into its logical value.  Inline words are
    /// decoded without touching the heap; handles copy the heap entry.
    pub fn unpack(self, globals: &Globals) -> (r: Value)
        requires
            globals.wf0(),
            globals.word_ok(self.0),
        ensures
            val_like(r, globals.spec_unpack(self.0)),
    {
        if !self.is_packed_value() {
            let w = self.0;
            proof {
                assert(word_is_ref(w));
                assert(w >= 40 && w & 0b1 != 1 && w & 0b11 != 0b10 && w & 0xff != 0x0c)
                    by (bit_vector)
                    requires
                        w & 0b0111 == 0 && !(w <= 0x20),
                ;
                assert(decode_ref(w) < globals.heap@.len());
                assert((w - REF_BASE) / 8 == decode_ref(w));
            }
            let idx64 = (w - REF_BASE) / 8;
            let idx = idx64 as usize;
            clone_value(&globals.heap[idx])
        } else if self.is_packed_fixnum() {
            Value::FixNum(self.as_packed_fixnum())
        } else if self.is_packed_num() {
            Value::FloatNum(self.as_packed_flonum_bits())
        } else if self.is_packed_symbol() {
            Value::Symbol(self.as_packed_symbol())
        } else {
            proof {
                crate::value::lemma_sentinels();
            }
            if self.0 == NIL_VALUE {
                Value::Nil
            } else if self.0 == crate::value::TRUE_VALUE {
                Value::Bool(true)
            } else if self.0 == crate::value::FALSE_VALUE {
                Value::Bool(false)
            } else {
                proof {
                    assert(self.0 == crate::value::UNINITIALIZED);
                }
                Value::Uninitialized
            }
        }
    }
}

// ---------------------------------------------------------------------------
// Reading values against the state.
// ---------------------------------------------------------------------------

impl Globals {
    /// The word is a live handle to some heap object envelope.
    pub open spec fn is_obj_word(self, w: u64) -> bool {
        &&& word_is_ref(w)
        &&& decode_ref(w) < self.heap@.len()
        &&& self.heap_at(w) matches Value::Object(_)
    }

    /// The envelope behind an object handle.
    pub open spec fn obj_at(self, w: u64) -> ObjectInfo {
        self.heap_at(w)->Object_0
    }

    pub open spec fn is_kind_class(self, w: u64) -> bool {
        self.is_obj_word(w) && self.obj_at(w).kind matches ObjKind::Class(_)
    }

    pub open spec fn spec_as_array(self, w: u64) -> Option<crate::object::ArrayRef> {
        if self.is_obj_word(w) && self.obj_at(w).kind matches ObjKind::Array(_) {
            Some(self.obj_at(w).kind->Array_0)
        } else {
            None
        }
    }

    pub open spec fn spec_as_splat(self, w: u64) -> Option<crate::object::ArrayRef> {
        if self.is_obj_word(w) && self.obj_at(w).kind matches ObjKind::SplatArray(_) {
            Some(self.obj_at(w).kind->SplatArray_0)
        } else {
            None
        }
    }

    pub open spec fn spec_as_hash(self, w: u64) -> Option<crate::object::HashRef> {
        if self.is_obj_word(w) && self.obj_at(w).kind matches ObjKind::Hash(_) {
            Some(self.obj_at(w).kind->Hash_0)
        } else {
            None
        }
    }

    pub open spec fn spec_as_range(self, w: u64) -> Option<crate::object::RangeInfo> {
        if self.is_obj_word(w) && self.obj_at(w).kind matches ObjKind::Range(_) {
            Some(self.obj_at(w).kind->Range_0)
        } else {
            None
        }
    }

    pub open spec fn spec_as_method(self, w: u64) -> Option<crate::object::MethodObjRef> {
        if self.is_obj_word(w) && self.obj_at(w).kind matches ObjKind::Method(_) {
            Some(self.obj_at(w).kind->Method_0)
        } else {
            None
        }
    }

    pub open spec fn spec_as_regexp(self, w: u64) -> Option<crate::object::RegexpRef> {
        if self.is_obj_word(w) && self.obj_at(w).kind matches ObjKind::Regexp(_) {
            Some(self.obj_at(w).kind->Regexp_0)
        } else {
            None
        }
    }

    pub open spec fn spec_as_fixnum(self, w: u64) -> Option<i64> {
        if crate::value::word_is_fixnum(w) {
            Some(crate::value::decode_fixnum(w))
        } else if word_is_ref(w) && decode_ref(w) < self.heap@.len() && self.heap_at(
            w,
        ) matches Value::FixNum(_) {
            Some(self.heap_at(w)->FixNum_0)
        } else {
            None
        }
    }

    /// The index of the heap entry a handle word points at, as it is
    /// computed by the executable accessors.
    fn ref_index(&self, v: PackedValue) -> (r: usize)
        requires
            self.wf0(),
            self.word_ok(v.0),
            !crate::value::word_is_inline(v.0),
        ensures
            r == decode_ref(v.0),
            r < self.heap@.len(),
            v.0 == encode_ref(decode_ref(v.0)),
    {
        let w = v.0;
        proof {
            assert(w >= 40 && w & 0b1 != 1 && w & 0b11 != 0b10 && w & 0xff != 0x0c)
                by (bit_vector)
                requires
                    w & 0b0111 == 0 && !(w <= 0x20),
            ;
            assert(decode_ref(w) < self.heap@.len());
            assert((w - REF_BASE) / 8 == decode_ref(w));
        }
        ((w - REF_BASE) / 8) as usize
    }
}

impl PackedValue {
    /// A handle to this value's envelope, when it is a heap object.
    pub fn is_object(&self, globals: &Globals) -> (r: Option<ObjectRef>)
        requires
            globals.wf0(),
            globals.word_ok(self.0),
        ensures
            match r {
                Some(oref) => globals.is_obj_word(self.0) && oref.0 == decode_ref(self.0),
                None => !globals.is_obj_word(self.0),
            },
    {
        if self.is_packed_value() {
            proof {
                crate::value::lemma_sentinels();
            }
            return None;
        }
        let idx = globals.ref_index(*self);
        match &globals.heap[idx] {
            Value::Object(_) => Some(ObjectRef(idx)),
            _ => None,
        }
    }

    /// The envelope handle of an object value.
    pub fn as_object(&self, globals: &Globals) -> (r: ObjectRef)
        requires
            globals.wf0(),
            globals.word_ok(self.0),
            globals.is_obj_word(self.0),
        ensures
            r.0 == decode_ref(self.0),
            r.0 < globals.heap@.len(),
    {
        let idx = globals.ref_index(*self);
        ObjectRef(idx)
    }

    /// The class record behind a class value (not a module value).
    pub fn is_class(&self, globals: &Globals) -> (r: Option<ClassRef>)
        requires
            globals.wf0(),
            globals.word_ok(self.0),
        ensures
            r == if globals.is_kind_class(self.0) {
                Some(globals.word_cref(self.0))
            } else {
                None::<ClassRef>
            },
    {
        if self.is_packed_value() {
            return None;
        }
        let idx = globals.ref_index(*self);
        match &globals.heap[idx] {
            Value::Object(o) => match o.kind {
                ObjKind::Class(cref) => Some(cref),
                _ => None,
            },
            _ => None,
        }
    }

    /// The class record behind a class value, which the caller has already
    /// established.
    pub fn as_class(&self, globals: &Globals) -> (r: ClassRef)
        requires
            globals.wf0(),
            globals.word_ok(self.0),
            globals.is_class_word(self.0),
        ensures
            r == globals.word_cref(self.0),
            r.0 < globals.classes@.len(),
    {
        let idx = globals.ref_index(*self);
        match &globals.heap[idx] {
            Value::Object(o) => match o.kind {
                ObjKind::Class(cref) => cref,
                ObjKind::Module(cref) => cref,
                _ => {
                    proof {
                        assert(false);
                    }
                    ClassRef(0)
                },
            },
            _ => {
                proof {
                    assert(false);
                }
                ClassRef(0)
            },
        }
    }

    /// The class record behind a class or module value.
    pub fn as_module(&self, globals: &Globals) -> (r: Option<ClassRef>)
        requires
            globals.wf0(),
            globals.word_ok(self.0),
        ensures
            r == if globals.is_class_word(self.0) {
                Some(globals.word_cref(self.0))
            } else {
                None::<ClassRef>
            },
            r matches Some(c) ==> c.0 < globals.classes@.len(),
    {
        if self.is_packed_value() {
            return None;
        }
        let idx = globals.ref_index(*self);
        match &globals.heap[idx] {
            Value::Object(o) => match o.kind {
                ObjKind::Class(cref) => Some(cref),
                ObjKind::Module(cref) => Some(cref),
                _ => None,
            },
            _ => None,
        }
    }

    pub fn as_array(&self, globals: &Globals) -> (r: Option<crate::object::ArrayRef>)
        requires
            globals.wf0(),
            globals.word_ok(self.0),
        ensures
            r == globals.spec_as_array(self.0),
            r matches Some(a) ==> a.0 < globals.arrays@.len(),
    {
        if self.is_packed_value() {
            return None;
        }
        let idx = globals.ref_index(*self);
        match &globals.heap[idx] {
            Value::Object(o) => match o.kind {
                ObjKind::Array(aref) => Some(aref),
                _ => None,
            },
            _ => None,
        }
    }

    pub fn as_splat(&self, globals: &Globals) -> (r: Option<crate::object::ArrayRef>)
        requires
            globals.wf0(),
            globals.word_ok(self.0),
        ensures
            r == globals.spec_as_splat(self.0),
            r matches Some(a) ==> a.0 < globals.arrays@.len(),
    {
        if self.is_packed_value() {
            return None;
        }
        let idx = globals.ref_index(*self);
        match &globals.heap[idx] {
            Value::Object(o) => match o.kind {
                ObjKind::SplatArray(aref) => Some(aref),
                _ => None,
            },
            _ => None,
        }
    }

    pub fn as_hash(&self, globals: &Globals) -> (r: Option<crate::object::HashRef>)
        requires
            globals.wf0(),
            globals.word_ok(self.0),
        ensures
            r == globals.spec_as_hash(self.0),
            r matches Some(h) ==> h.0 < globals.hashes@.len(),
    {
        if self.is_packed_value() {
            return None;
        }
        let idx = globals.ref_index(*self);
        match &globals.heap[idx] {
            Value::Object(o) => match o.kind {
                ObjKind::Hash(href) => Some(href),
                _ => None,
            },
            _ => None,
        }
    }

    pub fn as_range(&self, globals: &Globals) -> (r: Option<crate::object::RangeInfo>)
        requires
            globals.wf0(),
            globals.word_ok(self.0),
        ensures
            r == globals.spec_as_range(self.0),
            r matches Some(ri) ==> globals.word_ok(ri.start.0) && globals.word_ok(ri.end.0),
    {
        if self.is_packed_value() {
            return None;
        }
        let idx = globals.ref_index(*self);
        match &globals.heap[idx] {
            Value::Object(o) => match o.kind {
                ObjKind::Range(info) => Some(info),
                _ => None,
            },
            _ => None,
        }
    }

    pub fn as_method(&self, globals: &Globals) -> (r: Option<crate::object::MethodObjRef>)
        requires
            globals.wf0(),
            globals.word_ok(self.0),
        ensures
            r == globals.spec_as_method(self.0),
            r matches Some(m) ==> m.0 < globals.methodobjs@.len(),
    {
        if self.is_packed_value() {
            return None;
        }
        let idx = globals.ref_index(*self);
        match &globals.heap[idx] {
            Value::Object(o) => match o.kind {
                ObjKind::Method(mref) => Some(mref),
                _ => None,
            },
            _ => None,
        }
    }

    pub fn as_regexp<'a>(&self, globals: &'a Globals) -> (r: Option<&'a RegexpInfo>)
        requires
            globals.wf0(),
            globals.word_ok(self.0),
        ensures
            match r {
                Some(info) => globals.spec_as_regexp(self.0) matches Some(rr) && *info
                    == globals.regexps@[rr.0 as int],
                None => globals.spec_as_regexp(self.0) is None,
            },
    {
        if self.is_packed_value() {
            return None;
        }
        let idx = globals.ref_index(*self);
        match &globals.heap[idx] {
            Value::Object(o) => match o.kind {
                ObjKind::Regexp(rref) => Some(&globals.regexps[rref.0]),
                _ => None,
            },
            _ => None,
        }
    }

    pub fn as_string<'a>(&self, globals: &'a Globals) -> (r: Option<&'a String>)
        requires
            globals.wf0(),
            globals.word_ok(self.0),
        ensures
            match r {
                Some(s) => !crate::value::word_is_inline(self.0) && (globals.heap_at(self.0)
                    matches Value::String(t) && *s == t),
                None => !(!crate::value::word_is_inline(self.0) && (globals.heap_at(self.0)
                    matches Value::String(_))),
            },
    {
        if self.is_packed_value() {
            return None;
        }
        let idx = globals.ref_index(*self);
        match &globals.heap[idx] {
            Value::String(s) => Some(s),
            _ => None,
        }
    }

    pub fn as_fixnum(&self, globals: &Globals) -> (r: Option<i64>)
        requires
            globals.wf0(),
            globals.word_ok(self.0),
        ensures
            r == globals.spec_as_fixnum(self.0),
    {
        if self.is_packed_fixnum() {
            Some(self.as_packed_fixnum())
        } else if self.is_packed_value() {
            proof {
                crate::value::lemma_sentinels();
            }
            None
        } else {
            let idx = globals.ref_index(*self);
            proof {
                let w = self.0;
                assert(w & 0b1 != 1) by (bit_vector)
                    requires
                        w & 0b0111 == 0,
                ;
            }
            match &globals.heap[idx] {
                Value::FixNum(i) => Some(*i),
                _ => None,
            }
        }
    }
}

// ---------------------------------------------------------------------------
// In-place updates preserve well-formedness.
// ---------------------------------------------------------------------------

/// Replacing one heap object with another of the same kind keeps the state
/// well-formed, provided the new envelope is well-formed.
pub proof fn lemma_wf0_update_obj(g1: Globals, g2: Globals, idx: int)
    requires
        g1.wf0(),
        0 <= idx < g1.heap@.len(),
        g2.heap@ == g1.heap@.update(idx, g2.heap@[idx]),
        g2.classes == g1.classes,
        g2.arrays == g1.arrays,
        g2.hashes == g1.hashes,
        g2.regexps == g1.regexps,
        g2.methodobjs == g1.methodobjs,
        g2.iseqs == g1.iseqs,
        g2.methods == g1.methods,
        g2.idents == g1.idents,
        g2.val_ok(g2.heap@[idx]),
        g1.heap@[idx] matches Value::Object(o1) && (g2.heap@[idx] matches Value::Object(o2)
            && o2.kind == o1.kind),
    ensures
        g2.wf0(),
        forall|w: u64| g1.word_ok(w) ==> g2.word_ok(w),
        forall|w: u64|
            g1.is_class_word(w) ==> g2.is_class_word(w) && g2.word_cref(w) == g1.word_cref(w),
{
    assert(g2.heap@.len() == g1.heap@.len());
    assert forall|w: u64| g1.is_class_word(w) implies g2.is_class_word(w) && g2.word_cref(w)
        == g1.word_cref(w) by {
        if decode_ref(w) == idx {
        } else {
            assert(g2.heap@[decode_ref(w) as int] == g1.heap@[decode_ref(w) as int]);
        }
    }
    assert forall|i: int| 0 <= i < g2.heap@.len() implies g2.val_ok(#[trigger] g2.heap@[i]) by {
        if i != idx {
            assert(g2.heap@[i] == g1.heap@[i]);
            assert(g1.val_ok(g1.heap@[i]));
        }
    }
    assert forall|i: int| 0 <= i < g2.classes@.len() implies g2.class_ok(i) by {
        assert(g1.class_ok(i));
        let c = g1.classes@[i];
        if c.object.0 != NIL_VALUE {
            assert(g1.is_class_word(c.object.0));
        }
    }
    assert forall|i: int| 0 <= i < g2.arrays@.len() implies g2.aryinfo_ok(
        #[trigger] g2.arrays@[i],
    ) by {
        assert(g1.aryinfo_ok(g1.arrays@[i]));
    }
    assert forall|i: int| 0 <= i < g2.hashes@.len() implies g2.hashinfo_ok(
        #[trigger] g2.hashes@[i],
    ) by {
        assert(g1.hashinfo_ok(g1.hashes@[i]));
    }
    assert forall|i: int| 0 <= i < g2.methodobjs@.len() implies g2.mobj_ok(
        #[trigger] g2.methodobjs@[i],
    ) by {
        assert(g1.mobj_ok(g1.methodobjs@[i]));
    }
    assert forall|i: int| 0 <= i < g2.methods.table@.len() implies g2.methodinfo_ok(
        #[trigger] g2.methods.table@[i],
    ) by {
        assert(g1.methodinfo_ok(g1.methods.table@[i]));
    }
}

/// Replacing one class record keeps the state well-formed, provided the
/// new record satisfies the class conditions at its index.
pub proof fn lemma_wf0_update_class(g1: Globals, g2: Globals, idx: int)
    requires
        g1.wf0(),
        0 <= idx < g1.classes@.len(),
        g2.classes@ == g1.classes@.update(idx, g2.classes@[idx]),
        g2.heap == g1.heap,
        g2.arrays == g1.arrays,
        g2.hashes == g1.hashes,
        g2.regexps == g1.regexps,
        g2.methodobjs == g1.methodobjs,
        g2.iseqs == g1.iseqs,
        g2.methods == g1.methods,
        g2.idents == g1.idents,
        g2.class_ok(idx),
    ensures
        g2.wf0(),
{
    assert forall|i: int| 0 <= i < g2.heap@.len() implies g2.val_ok(#[trigger] g2.heap@[i]) by {
        assert(g1.val_ok(g1.heap@[i]));
        match g1.heap@[i] {
            Value::Object(o) => {
                assert(g1.kind_ok(o.kind));
                match o.kind {
                    ObjKind::Class(c) => {
                        assert(c.0 < g2.classes@.len());
                    },
                    _ => {},
                }
            },
            _ => {},
        }
    }
    assert forall|i: int| 0 <= i < g2.classes@.len() implies g2.class_ok(i) by {
        if i != idx {
            assert(g2.classes@[i] == g1.classes@[i]);
            assert(g1.class_ok(i));
            let c = g1.classes@[i];
            if c.object.0 != NIL_VALUE {
                assert(g1.is_class_word(c.object.0));
            }
        }
    }
    assert forall|i: int| 0 <= i < g2.arrays@.len() implies g2.aryinfo_ok(
        #[trigger] g2.arrays@[i],
    ) by {
        assert(g1.aryinfo_ok(g1.arrays@[i]));
    }
    assert forall|i: int| 0 <= i < g2.hashes@.len() implies g2.hashinfo_ok(
        #[trigger] g2.hashes@[i],
    ) by {
        assert(g1.hashinfo_ok(g1.hashes@[i]));
    }
    assert forall|i: int| 0 <= i < g2.methodobjs@.len() implies g2.mobj_ok(
        #[trigger] g2.methodobjs@[i],
    ) by {
        assert(g1.mobj_ok(g1.methodobjs@[i]));
    }
}

// ---------------------------------------------------------------------------
// Instance variables.
// ---------------------------------------------------------------------------

impl PackedValue {
    /// Writes an instance variable on the receiver object, inserting or
    /// overwriting.
    pub fn set_var(&self, globals: &mut Globals, id: IdentId, val: PackedValue)
        requires
            old(globals).wf0(),
            old(globals).word_ok(self.0),
            old(globals).is_obj_word(self.0),
            id.0 < old(globals).idents.names@.len(),
            old(globals).word_ok(val.0),
        ensures
            final(globals).wf0(),
            crate::vm::grows(*old(globals), *final(globals)),
            final(globals).heap@.len() == old(globals).heap@.len(),
            final(globals).classes == old(globals).classes,
            final(globals).arrays == old(globals).arrays,
            final(globals).hashes == old(globals).hashes,
            final(globals).regexps == old(globals).regexps,
            final(globals).methodobjs == old(globals).methodobjs,
            final(globals).iseqs == old(globals).iseqs,
            final(globals).methods == old(globals).methods,
            final(globals).idents == old(globals).idents,
            same_builtins(*old(globals), *final(globals)),
            old(globals).builtins_ok() ==> final(globals).builtins_ok(),
            final(globals).is_obj_word(self.0),
            final(globals).obj_at(self.0).var_table.spec_get(id) == Some(val),
            final(globals).obj_at(self.0).kind == old(globals).obj_at(self.0).kind,
            final(globals).obj_at(self.0).class == old(globals).obj_at(self.0).class,
            forall|k: IdentId|
                k != id ==> final(globals).obj_at(self.0).var_table.spec_get(k) == old(globals).obj_at(self.0).var_table.spec_get(k),
            forall|w: u64|
                decode_ref(w) != decode_ref(self.0) && decode_ref(w) < old(globals).heap@.len()
                    ==> final(globals).heap_at(w) == old(globals).heap_at(w),
            forall|w: u64| old(globals).word_ok(w) ==> final(globals).word_ok(w),
            forall|w: u64|
                old(globals).is_class_word(w) ==> final(globals).is_class_word(w)
                    && final(globals).word_cref(w) == old(globals).word_cref(w),
    {
        let idx = globals.ref_index(*self);
        let mut tmp = Value::Nil;
        core::mem::swap(&mut tmp, &mut globals.heap[idx]);
        let mut o = match tmp {
            Value::Object(o) => o,
            _ => {
                proof {
                    assert(false);
                }
                ObjectInfo::new_ordinary(PackedValue::nil())
            },
        };
        proof {
            assert(globals.heap@ == old(globals).heap@.update(idx as int, Value::Nil));
            assert(o == old(globals).obj_at(self.0));
        }
        o.var_table.insert(id, val);
        proof {
            assert(forall|j: int|
                0 <= j < o.var_table.entries@.len() ==> (#[trigger] o.var_table.entries@[j])
                    == old(globals).obj_at(self.0).var_table.entries@[j] || o.var_table.entries@[j]
                    == (id, val));
        }
        let ghost o1 = old(globals).obj_at(self.0);
        let ghost o2 = o;
        globals.heap[idx] = Value::Object(o);
        proof {
            let g1 = *old(globals);
            let g2 = *globals;
            assert(g2.heap@ =~= g1.heap@.update(idx as int, Value::Object(o2)));
            assert(g1.val_ok(g1.heap@[idx as int]));
            assert(g1.obj_ok(o1));
            assert(g2.heap@.len() == g1.heap@.len());
            assert(g2.idents == g1.idents);
            assert(g2.val_ok(g2.heap@[idx as int])) by {
                assert forall|j: int| 0 <= j < o2.var_table.entries@.len() implies g2.word_ok(
                    (#[trigger] o2.var_table.entries@[j]).1.0,
                ) && o2.var_table.entries@[j].0.0 < g2.idents.names@.len() by {
                    if j < o1.var_table.entries@.len() {
                        if o2.var_table.entries@[j] != (id, val) {
                            assert(o2.var_table.entries@[j] == o1.var_table.entries@[j]);
                            assert(g1.word_ok(o1.var_table.entries@[j].1.0));
                            assert(o1.var_table.entries@[j].0.0 < g1.idents.names@.len());
                        }
                    } else {
                        assert(o2.var_table.entries@ == o1.var_table.entries@.push((id, val)));
                        assert(o2.var_table.entries@[j] == (id, val));
                    }
                }
            }
            lemma_wf0_update_obj(g1, g2, idx as int);
        }
    }

    /// Reads an instance variable; an unset variable reads as absent.
    pub fn get_var(&self, globals: &Globals, id: IdentId) -> (r: Option<PackedValue>)
        requires
            globals.wf0(),
            globals.word_ok(self.0),
            globals.is_obj_word(self.0),
        ensures
            r == globals.obj_at(self.0).var_table.spec_get(id),
            r matches Some(v) ==> globals.word_ok(v.0),
    {
        let idx = globals.ref_index(*self);
        match &globals.heap[idx] {
            Value::Object(o) => {
                let r = o.var_table.get(id);
                proof {
                    if r is Some {
                        let entries = o.var_table.entries@;
                        let v = r->0;
                        assert(globals.word_ok(v.0)) by {
                            lemma_entries_get_is_entry(entries, id);
                            assert(globals.obj_ok(globals.obj_at(self.0)));
                        }
                    }
                }
                r
            },
            _ => {
                proof {
                    assert(false);
                }
                None
            },
        }
    }

    /// Overwrites an instance variable only when it already exists; tells
    /// the caller whether it did.
    pub fn set_var_if_exists(&self, globals: &mut Globals, id: IdentId, val: PackedValue) -> (r:
        bool)
        requires
            old(globals).wf0(),
            old(globals).word_ok(self.0),
            old(globals).is_obj_word(self.0),
            id.0 < old(globals).idents.names@.len(),
            old(globals).word_ok(val.0),
        ensures
            final(globals).wf0(),
            crate::vm::grows(*old(globals), *final(globals)),
            same_builtins(*old(globals), *final(globals)),
            old(globals).builtins_ok() ==> final(globals).builtins_ok(),
            final(globals).heap@.len() == old(globals).heap@.len(),
            final(globals).classes == old(globals).classes,
            r == (old(globals).obj_at(self.0).var_table.spec_get(id) is Some),
            r ==> final(globals).obj_at(self.0).var_table.spec_get(id) == Some(val),
            !r ==> *final(globals) == *old(globals),
    {
        let existing = self.get_var(globals, id);
        match existing {
            Some(_) => {
                self.set_var(globals, id, val);
                true
            },
            None => false,
        }
    }
}

// ---------------------------------------------------------------------------
// Arena handles for specialised payloads.
// ---------------------------------------------------------------------------

impl crate::object::ArrayRef {
    /// Moves an element vector into the array arena.
    pub fn from(globals: &mut Globals, elements: Vec<PackedValue>) -> (r: crate::object::ArrayRef)
        requires
            old(globals).wf0(),
            forall|j: int|
                0 <= j < elements@.len() ==> old(globals).word_ok((#[trigger] elements@[j]).0),
        ensures
            final(globals).wf0(),
            crate::vm::grows(*old(globals), *final(globals)),
            final(globals).arrays@ == old(globals).arrays@.push(
                ArrayInfo { elements: elements },
            ),
            final(globals).heap == old(globals).heap,
            final(globals).classes == old(globals).classes,
            final(globals).hashes == old(globals).hashes,
            final(globals).regexps == old(globals).regexps,
            final(globals).methodobjs == old(globals).methodobjs,
            final(globals).iseqs == old(globals).iseqs,
            final(globals).methods == old(globals).methods,
            final(globals).idents == old(globals).idents,
            same_builtins(*old(globals), *final(globals)),
            old(globals).builtins_ok() ==> final(globals).builtins_ok(),
            r.0 == old(globals).arrays@.len(),
            r.0 < final(globals).arrays@.len(),
            final(globals).arrays@[r.0 as int].elements == elements,
    {
        let r = crate::object::ArrayRef(globals.arrays.len());
        globals.arrays.push(ArrayInfo { elements });
        proof {
            lemma_wf0_extend(*old(globals), *globals);
        }
        r
    }
}

impl crate::object::HashRef {
    /// Moves a pair vector into the hash arena.
    pub fn from(globals: &mut Globals, pairs: Vec<(PackedValue, PackedValue)>) -> (r:
        crate::object::HashRef)
        requires
            old(globals).wf0(),
            forall|j: int|
                0 <= j < pairs@.len() ==> old(globals).word_ok((#[trigger] pairs@[j]).0.0) && old(globals).word_ok(pairs@[j].1.0),
        ensures
            final(globals).wf0(),
            crate::vm::grows(*old(globals), *final(globals)),
            final(globals).hashes@ == old(globals).hashes@.push(HashInfo { pairs: pairs }),
            final(globals).heap == old(globals).heap,
            final(globals).classes == old(globals).classes,
            final(globals).arrays == old(globals).arrays,
            same_builtins(*old(globals), *final(globals)),
            old(globals).builtins_ok() ==> final(globals).builtins_ok(),
            r.0 == old(globals).hashes@.len(),
            r.0 < final(globals).hashes@.len(),
    {
        let r = crate::object::HashRef(globals.hashes.len());
        globals.hashes.push(HashInfo { pairs });
        proof {
            lemma_wf0_extend(*old(globals), *globals);
        }
        r
    }
}

impl crate::object::RegexpRef {
    /// Moves a pattern source into the pattern arena.
    pub fn from(globals: &mut Globals, source: String) -> (r: crate::object::RegexpRef)
        requires
            old(globals).wf0(),
        ensures
            final(globals).wf0(),
            crate::vm::grows(*old(globals), *final(globals)),
            final(globals).regexps@ == old(globals).regexps@.push(RegexpInfo { source: source }),
            final(globals).heap == old(globals).heap,
            final(globals).classes == old(globals).classes,
            same_builtins(*old(globals), *final(globals)),
            old(globals).builtins_ok() ==> final(globals).builtins_ok(),
            r.0 == old(globals).regexps@.len(),
            r.0 < final(globals).regexps@.len(),
            final(globals).regexps@[r.0 as int].source == source,
    {
        let r = crate::object::RegexpRef(globals.regexps.len());
        globals.regexps.push(RegexpInfo { source });
        proof {
            lemma_wf0_extend(*old(globals), *globals);
        }
        r
    }
}

// ---------------------------------------------------------------------------
// Boxed-object constructors.
// ---------------------------------------------------------------------------

impl Globals {
    /// Sets the class-object backlink of a class record.
    fn set_class_object(&mut self, cref: ClassRef, val: PackedValue)
        requires
            old(self).wf0(),
            cref.0 < old(self).classes@.len(),
            old(self).is_class_word(val.0),
            old(self).word_cref(val.0) == cref,
        ensures
            final(self).wf0(),
            crate::vm::grows(*old(self), *final(self)),
            final(self).classes@ == old(self).classes@.update(
                cref.0 as int,
                final(self).classes@[cref.0 as int],
            ),
            final(self).classes@[cref.0 as int] == (ClassInfo {
                object: val,
                ..old(self).classes@[cref.0 as int]
            }),
            final(self).heap == old(self).heap,
            final(self).arrays == old(self).arrays,
            final(self).hashes == old(self).hashes,
            final(self).regexps == old(self).regexps,
            final(self).methodobjs == old(self).methodobjs,
            final(self).iseqs == old(self).iseqs,
            final(self).methods == old(self).methods,
            final(self).idents == old(self).idents,
            same_builtins(*old(self), *final(self)),
            old(self).builtins_ok() ==> final(self).builtins_ok(),
    {
        let idx = cref.0;
        let mut tmp = ClassInfo::new(IdentId(0), None);
        core::mem::swap(&mut tmp, &mut self.classes[idx]);
        tmp.object = val;
        self.classes[idx] = tmp;
        proof {
            let g1 = *old(self);
            let g2 = *self;
            assert(g2.classes@ =~= g1.classes@.update(idx as int, g2.classes@[idx as int]));
            assert(g1.class_ok(idx as int));
            assert(g2.class_ok(idx as int)) by {
                let c1 = g1.classes@[idx as int];
                let c2 = g2.classes@[idx as int];
                assert forall|j: int|
                    0 <= j < c2.instance_method.entries@.len() implies (
                #[trigger] c2.instance_method.entries@[j]).1.0 < g2.methods.table@.len() by {
                    assert(c1.instance_method.entries@[j].1.0 < g1.methods.table@.len());
                }
                assert forall|j: int|
                    0 <= j < c2.class_method.entries@.len() implies (
                #[trigger] c2.class_method.entries@[j]).1.0 < g2.methods.table@.len() by {
                    assert(c1.class_method.entries@[j].1.0 < g1.methods.table@.len());
                }
                assert forall|j: int| 0 <= j < c2.included@.len() implies g2.word_ok(
                    (#[trigger] c2.included@[j]).0,
                ) by {
                    assert(g1.word_ok(c1.included@[j].0));
                }
            }
            lemma_wf0_update_class(g1, g2, idx as int);
        }
    }
}

impl PackedValue {
    /// Boxes an integer, inline when its top two bits agree.
    pub fn fixnum(globals: &mut Globals, num: i64) -> (r: PackedValue)
        requires
            old(globals).wf0(),
            old(globals).spec_can_alloc(),
        ensures
            final(globals).wf0(),
            crate::vm::grows(*old(globals), *final(globals)),
            extends(*old(globals), *final(globals)),
            final(globals).classes == old(globals).classes,
            same_builtins(*old(globals), *final(globals)),
            old(globals).builtins_ok() ==> final(globals).builtins_ok(),
            final(globals).word_ok(r.0),
            final(globals).spec_unpack(r.0) == (Value::FixNum(num)),
            crate::value::fixnum_encodable(num) ==> r.0 == crate::value::encode_fixnum(num),
    {
        Value::FixNum(num).pack(globals)
    }

    /// Boxes a floating-point bit pattern, inline when its exponent bits
    /// allow the rotation.
    pub fn flonum(globals: &mut Globals, bits: u64) -> (r: PackedValue)
        requires
            old(globals).wf0(),
            old(globals).spec_can_alloc(),
        ensures
            final(globals).wf0(),
            crate::vm::grows(*old(globals), *final(globals)),
            extends(*old(globals), *final(globals)),
            final(globals).classes == old(globals).classes,
            same_builtins(*old(globals), *final(globals)),
            old(globals).builtins_ok() ==> final(globals).builtins_ok(),
            final(globals).word_ok(r.0),
            final(globals).spec_unpack(r.0) == (Value::FloatNum(bits)),
    {
        Value::FloatNum(bits).pack(globals)
    }

    /// Boxes an owned text payload.
    pub fn string(globals: &mut Globals, string: String) -> (r: PackedValue)
        requires
            old(globals).wf0(),
            old(globals).spec_can_alloc(),
        ensures
            final(globals).wf0(),
            crate::vm::grows(*old(globals), *final(globals)),
            extends(*old(globals), *final(globals)),
            final(globals).classes == old(globals).classes,
            same_builtins(*old(globals), *final(globals)),
            old(globals).builtins_ok() ==> final(globals).builtins_ok(),
            final(globals).word_ok(r.0),
            final(globals).spec_unpack(r.0) == (Value::String(string)),
            !crate::value::word_is_inline(r.0),
            decode_ref(r.0) == old(globals).heap@.len(),
    {
        globals.box_value(Value::String(string))
    }

    /// Boxes an object envelope.
    pub fn object(globals: &mut Globals, obj_info: ObjectInfo) -> (r: PackedValue)
        requires
            old(globals).wf0(),
            old(globals).spec_can_alloc(),
            old(globals).obj_ok(obj_info),
        ensures
            final(globals).wf0(),
            crate::vm::grows(*old(globals), *final(globals)),
            final(globals).heap@ == old(globals).heap@.push(Value::Object(obj_info)),
            final(globals).classes == old(globals).classes,
            final(globals).arrays == old(globals).arrays,
            final(globals).hashes == old(globals).hashes,
            final(globals).regexps == old(globals).regexps,
            final(globals).methodobjs == old(globals).methodobjs,
            final(globals).iseqs == old(globals).iseqs,
            final(globals).methods == old(globals).methods,
            final(globals).idents == old(globals).idents,
            same_builtins(*old(globals), *final(globals)),
            old(globals).builtins_ok() ==> final(globals).builtins_ok(),
            final(globals).word_ok(r.0),
            final(globals).is_obj_word(r.0),
            decode_ref(r.0) == old(globals).heap@.len(),
            r.0 == encode_ref(old(globals).heap@.len()),
            final(globals).obj_at(r.0) == obj_info,
    {
        globals.box_value(Value::Object(obj_info))
    }

    /// The class object of the first classes of the runtime, before the
    /// class of classes exists; its own class value is patched in by the
    /// caller once it does.
    pub fn bootstrap_class(globals: &mut Globals, classref: ClassRef) -> (r: PackedValue)
        requires
            old(globals).wf0(),
            old(globals).spec_can_alloc(),
            classref.0 < old(globals).classes@.len(),
        ensures
            final(globals).wf0(),
            crate::vm::grows(*old(globals), *final(globals)),
            same_builtins(*old(globals), *final(globals)),
            old(globals).builtins_ok() ==> final(globals).builtins_ok(),
            final(globals).heap@.len() == old(globals).heap@.len() + 1,
            forall|w: u64|
                decode_ref(w) < old(globals).heap@.len() ==> final(globals).heap_at(w) == old(
                    globals,
                ).heap_at(w),
            final(globals).obj_at(r.0).kind == (ObjKind::Class(classref)),
            final(globals).obj_at(r.0).class == PackedValue::spec_nil(),
            final(globals).obj_at(r.0).var_table.entries@.len() == 0,
            final(globals).is_class_word(r.0),
            final(globals).word_cref(r.0) == classref,
            final(globals).classes@ == old(globals).classes@.update(
                classref.0 as int,
                final(globals).classes@[classref.0 as int],
            ),
            final(globals).classes@[classref.0 as int] == (ClassInfo {
                object: r,
                ..old(globals).classes@[classref.0 as int]
            }),
            final(globals).arrays == old(globals).arrays,
            final(globals).methods == old(globals).methods,
            final(globals).idents == old(globals).idents,
            decode_ref(r.0) == old(globals).heap@.len(),
    {
        let obj = ObjectInfo::new_bootstrap(classref);
        proof {
            crate::value::lemma_sentinels();
        }
        let r = PackedValue::object(globals, obj);
        globals.set_class_object(classref, r);
        r
    }

    /// A plain instance of the given class, with an empty variable table.
    pub fn ordinary_object(globals: &mut Globals, class: PackedValue) -> (r: PackedValue)
        requires
            old(globals).wf0(),
            old(globals).spec_can_alloc(),
            old(globals).word_ok(class.0),
        ensures
            final(globals).wf0(),
            crate::vm::grows(*old(globals), *final(globals)),
            final(globals).heap@.len() == old(globals).heap@.len() + 1,
            forall|w: u64|
                decode_ref(w) < old(globals).heap@.len() ==> final(globals).heap_at(w) == old(globals).heap_at(w),
            final(globals).classes == old(globals).classes,
            final(globals).arrays == old(globals).arrays,
            same_builtins(*old(globals), *final(globals)),
            old(globals).builtins_ok() ==> final(globals).builtins_ok(),
            final(globals).is_obj_word(r.0),
            final(globals).word_ok(r.0),
            final(globals).obj_at(r.0).kind == (ObjKind::Ordinary),
            final(globals).obj_at(r.0).class == class,
            final(globals).obj_at(r.0).var_table.entries@.len() == 0,
            decode_ref(r.0) == old(globals).heap@.len(),
    {
        PackedValue::object(globals, ObjectInfo::new_ordinary(class))
    }
}

impl PackedValue {
    /// A class object owning the given class record; the record's backlink
    /// is set to the new value.
    pub fn class(globals: &mut Globals, class_ref: ClassRef) -> (r: PackedValue)
        requires
            old(globals).wf0(),
            old(globals).word_ok(old(globals).class_class.0),
            old(globals).spec_can_alloc(),
            class_ref.0 < old(globals).classes@.len(),
        ensures
            final(globals).wf0(),
            crate::vm::grows(*old(globals), *final(globals)),
            old(globals).builtins_ok() ==> final(globals).builtins_ok(),
            final(globals).heap@.len() == old(globals).heap@.len() + 1,
            forall|w: u64|
                decode_ref(w) < old(globals).heap@.len() ==> final(globals).heap_at(w) == old(globals).heap_at(w),
            final(globals).classes@.len() == old(globals).classes@.len(),
            forall|i: int|
                0 <= i < old(globals).classes@.len() && i != class_ref.0 ==> final(globals).classes@[i] == old(globals).classes@[i],
            final(globals).classes@[class_ref.0 as int] == (ClassInfo {
                object: r,
                ..old(globals).classes@[class_ref.0 as int]
            }),
            final(globals).arrays == old(globals).arrays,
            final(globals).methods == old(globals).methods,
            final(globals).idents == old(globals).idents,
            same_builtins(*old(globals), *final(globals)),
            final(globals).is_class_word(r.0),
            final(globals).is_kind_class(r.0),
            final(globals).word_cref(r.0) == class_ref,
            final(globals).obj_at(r.0).class == old(globals).class_class,
            decode_ref(r.0) == old(globals).heap@.len(),
    {
        let cc = globals.class_class;
        let obj = ObjectInfo { class: cc, var_table: IdMap::new(), kind: ObjKind::Class(class_ref) };
        let r = PackedValue::object(globals, obj);
        globals.set_class_object(class_ref, r);
        r
    }

    /// A class object for an ordinary class; identical to `class`.
    pub fn plain_class(globals: &mut Globals, class_ref: ClassRef) -> (r: PackedValue)
        requires
            old(globals).wf0(),
            old(globals).word_ok(old(globals).class_class.0),
            old(globals).spec_can_alloc(),
            class_ref.0 < old(globals).classes@.len(),
        ensures
            final(globals).wf0(),
            crate::vm::grows(*old(globals), *final(globals)),
            old(globals).builtins_ok() ==> final(globals).builtins_ok(),
            final(globals).is_class_word(r.0),
            final(globals).word_cref(r.0) == class_ref,
            same_builtins(*old(globals), *final(globals)),
    {
        PackedValue::class(globals, class_ref)
    }

    /// A module object owning the given class record.
    pub fn module(globals: &mut Globals, class_ref: ClassRef) -> (r: PackedValue)
        requires
            old(globals).wf0(),
            old(globals).word_ok(old(globals).module_class.0),
            old(globals).spec_can_alloc(),
            class_ref.0 < old(globals).classes@.len(),
        ensures
            final(globals).wf0(),
            crate::vm::grows(*old(globals), *final(globals)),
            old(globals).builtins_ok() ==> final(globals).builtins_ok(),
            final(globals).heap@.len() == old(globals).heap@.len() + 1,
            forall|w: u64|
                decode_ref(w) < old(globals).heap@.len() ==> final(globals).heap_at(w) == old(globals).heap_at(w),
            final(globals).classes@.len() == old(globals).classes@.len(),
            forall|i: int|
                0 <= i < old(globals).classes@.len() && i != class_ref.0 ==> final(globals).classes@[i] == old(globals).classes@[i],
            final(globals).classes@[class_ref.0 as int] == (ClassInfo {
                object: r,
                ..old(globals).classes@[class_ref.0 as int]
            }),
            final(globals).methods == old(globals).methods,
            final(globals).idents == old(globals).idents,
            same_builtins(*old(globals), *final(globals)),
            final(globals).is_class_word(r.0),
            !final(globals).is_kind_class(r.0),
            final(globals).word_cref(r.0) == class_ref,
            decode_ref(r.0) == old(globals).heap@.len(),
    {
        let mc = globals.module_class;
        let obj = ObjectInfo {
            class: mc,
            var_table: IdMap::new(),
            kind: ObjKind::Module(class_ref),
        };
        let r = PackedValue::object(globals, obj);
        globals.set_class_object(class_ref, r);
        r
    }

    /// An array object wrapping an arena payload.
    pub fn array(globals: &mut Globals, array_ref: crate::object::ArrayRef) -> (r: PackedValue)
        requires
            old(globals).wf0(),
            old(globals).word_ok(old(globals).array.0),
            old(globals).spec_can_alloc(),
            array_ref.0 < old(globals).arrays@.len(),
        ensures
            final(globals).wf0(),
            crate::vm::grows(*old(globals), *final(globals)),
            old(globals).builtins_ok() ==> final(globals).builtins_ok(),
            final(globals).heap@.len() == old(globals).heap@.len() + 1,
            forall|w: u64|
                decode_ref(w) < old(globals).heap@.len() ==> final(globals).heap_at(w) == old(globals).heap_at(w),
            final(globals).classes == old(globals).classes,
            final(globals).arrays == old(globals).arrays,
            same_builtins(*old(globals), *final(globals)),
            final(globals).spec_as_array(r.0) == Some(array_ref),
            final(globals).word_ok(r.0),
            final(globals).obj_at(r.0).class == old(globals).array,
            decode_ref(r.0) == old(globals).heap@.len(),
    {
        let cls = globals.array;
        let obj = ObjectInfo { class: cls, var_table: IdMap::new(), kind: ObjKind::Array(array_ref) };
        PackedValue::object(globals, obj)
    }

    /// An array object built from an element vector.
    pub fn array_from(globals: &mut Globals, ary: Vec<PackedValue>) -> (r: PackedValue)
        requires
            old(globals).wf0(),
            old(globals).word_ok(old(globals).array.0),
            old(globals).spec_can_alloc(),
            forall|j: int| 0 <= j < ary@.len() ==> old(globals).word_ok((#[trigger] ary@[j]).0),
        ensures
            final(globals).wf0(),
            crate::vm::grows(*old(globals), *final(globals)),
            old(globals).builtins_ok() ==> final(globals).builtins_ok(),
            final(globals).heap@.len() == old(globals).heap@.len() + 1,
            forall|w: u64|
                decode_ref(w) < old(globals).heap@.len() ==> final(globals).heap_at(w) == old(globals).heap_at(w),
            final(globals).classes == old(globals).classes,
            same_builtins(*old(globals), *final(globals)),
            final(globals).word_ok(r.0),
            final(globals).obj_at(r.0).class == old(globals).array,
            final(globals).spec_as_array(r.0) matches Some(aref) && final(globals).arrays@[aref.0 as int].elements@ == ary@,
            final(globals).arrays@.len() == old(globals).arrays@.len() + 1,
            forall|i: int|
                0 <= i < old(globals).arrays@.len() ==> final(globals).arrays@[i] == old(globals).arrays@[i],
            decode_ref(r.0) == old(globals).heap@.len(),
    {
        let aref = crate::object::ArrayRef::from(globals, ary);
        PackedValue::array(globals, aref)
    }

    /// A spread-marker array object wrapping an arena payload.
    pub fn splat(globals: &mut Globals, array_ref: crate::object::ArrayRef) -> (r: PackedValue)
        requires
            old(globals).wf0(),
            old(globals).word_ok(old(globals).object.0),
            old(globals).spec_can_alloc(),
            array_ref.0 < old(globals).arrays@.len(),
        ensures
            final(globals).wf0(),
            crate::vm::grows(*old(globals), *final(globals)),
            old(globals).builtins_ok() ==> final(globals).builtins_ok(),
            final(globals).classes == old(globals).classes,
            final(globals).arrays == old(globals).arrays,
            same_builtins(*old(globals), *final(globals)),
            final(globals).spec_as_splat(r.0) == Some(array_ref),
            final(globals).word_ok(r.0),
    {
        let cls = globals.object;
        let obj = ObjectInfo {
            class: cls,
            var_table: IdMap::new(),
            kind: ObjKind::SplatArray(array_ref),
        };
        PackedValue::object(globals, obj)
    }

    /// A hash object wrapping an arena payload.
    pub fn hash(globals: &mut Globals, hash_ref: crate::object::HashRef) -> (r: PackedValue)
        requires
            old(globals).wf0(),
            old(globals).word_ok(old(globals).object.0),
            old(globals).spec_can_alloc(),
            hash_ref.0 < old(globals).hashes@.len(),
        ensures
            final(globals).wf0(),
            crate::vm::grows(*old(globals), *final(globals)),
            old(globals).builtins_ok() ==> final(globals).builtins_ok(),
            final(globals).classes == old(globals).classes,
            same_builtins(*old(globals), *final(globals)),
            final(globals).spec_as_hash(r.0) == Some(hash_ref),
            final(globals).word_ok(r.0),
    {
        let cls = globals.object;
        let obj = ObjectInfo { class: cls, var_table: IdMap::new(), kind: ObjKind::Hash(hash_ref) };
        PackedValue::object(globals, obj)
    }

    /// A pattern object wrapping an arena payload.
    pub fn regexp(globals: &mut Globals, regexp_ref: crate::object::RegexpRef) -> (r: PackedValue)
        requires
            old(globals).wf0(),
            old(globals).word_ok(old(globals).object.0),
            old(globals).spec_can_alloc(),
            regexp_ref.0 < old(globals).regexps@.len(),
        ensures
            final(globals).wf0(),
            crate::vm::grows(*old(globals), *final(globals)),
            old(globals).builtins_ok() ==> final(globals).builtins_ok(),
            final(globals).classes == old(globals).classes,
            final(globals).regexps == old(globals).regexps,
            same_builtins(*old(globals), *final(globals)),
            final(globals).spec_as_regexp(r.0) == Some(regexp_ref),
            final(globals).word_ok(r.0),
    {
        let cls = globals.object;
        let obj = ObjectInfo {
            class: cls,
            var_table: IdMap::new(),
            kind: ObjKind::Regexp(regexp_ref),
        };
        PackedValue::object(globals, obj)
    }

    /// A range object with owned bounds.
    pub fn range(globals: &mut Globals, start: PackedValue, end: PackedValue, exclude: bool) -> (r:
        PackedValue)
        requires
            old(globals).wf0(),
            old(globals).word_ok(old(globals).object.0),
            old(globals).spec_can_alloc(),
            old(globals).word_ok(start.0),
            old(globals).word_ok(end.0),
        ensures
            final(globals).wf0(),
            crate::vm::grows(*old(globals), *final(globals)),
            old(globals).builtins_ok() ==> final(globals).builtins_ok(),
            final(globals).classes == old(globals).classes,
            same_builtins(*old(globals), *final(globals)),
            final(globals).spec_as_range(r.0) == Some(
                crate::object::RangeInfo { start, end, exclude },
            ),
            final(globals).word_ok(r.0),
    {
        let info = crate::object::RangeInfo::new(start, end, exclude);
        let cls = globals.object;
        let obj = ObjectInfo { class: cls, var_table: IdMap::new(), kind: ObjKind::Range(info) };
        PackedValue::object(globals, obj)
    }

    /// A bound-method object: the receiver and the method record handle
    /// frozen at bind time.
    pub fn method(
        globals: &mut Globals,
        name: IdentId,
        receiver: PackedValue,
        method: MethodRef,
    ) -> (r: PackedValue)
        requires
            old(globals).wf0(),
            old(globals).word_ok(old(globals).object.0),
            old(globals).spec_can_alloc(),
            old(globals).word_ok(receiver.0),
            method.0 < old(globals).methods.table@.len(),
        ensures
            final(globals).wf0(),
            crate::vm::grows(*old(globals), *final(globals)),
            old(globals).builtins_ok() ==> final(globals).builtins_ok(),
            final(globals).classes == old(globals).classes,
            final(globals).methods == old(globals).methods,
            same_builtins(*old(globals), *final(globals)),
            final(globals).spec_as_method(r.0) matches Some(m) && final(globals).methodobjs@[m.0 as int] == (MethodObjInfo { name, receiver, method }),
            final(globals).word_ok(r.0),
    {
        let mref = crate::object::MethodObjRef(globals.methodobjs.len());
        globals.methodobjs.push(MethodObjInfo { name, receiver, method });
        proof {
            lemma_wf0_extend(*old(globals), *globals);
        }
        let cls = globals.object;
        let obj = ObjectInfo { class: cls, var_table: IdMap::new(), kind: ObjKind::Method(mref) };
        PackedValue::object(globals, obj)
    }

    /// The superclass value of a class or module value, if any.
    pub fn superclass(&self, globals: &Globals) -> (r: Option<PackedValue>)
        requires
            globals.wf0(),
            globals.word_ok(self.0),
        ensures
            match r {
                Some(v) => globals.is_class_word(self.0) && globals.word_ok(v.0),
                None => true,
            },
            globals.is_class_word(self.0) ==> r == globals.spec_superclass_val(
                globals.word_cref(self.0),
            ),
            !globals.is_class_word(self.0) ==> r is None,
    {
        match self.as_module(globals) {
            Some(cref) => {
                proof {
                    assert(globals.class_ok(cref.0 as int));
                }
                match globals.classes[cref.0].superclass {
                    Some(s) => {
                        proof {
                            assert(globals.class_ok(s.0 as int));
                        }
                        let w = globals.classes[s.0].object;
                        if w.is_nil() {
                            None
                        } else {
                            Some(w)
                        }
                    },
                    None => None,
                }
            },
            None => None,
        }
    }

    /// The class value that method resolution starts from for this
    /// receiver: its own class for heap objects, the built-in class of the
    /// payload kind for inline and boxed plain values.
    pub fn get_class_object_for_method(&self, globals: &Globals) -> (r: PackedValue)
        requires
            globals.wf(),
            globals.word_ok(self.0),
        ensures
            globals.word_ok(r.0),
            r == globals.spec_class_object_of(self.0),
    {
        proof {
            crate::value::lemma_sentinels();
        }
        if self.is_packed_fixnum() {
            globals.integer
        } else if self.is_packed_value() {
            globals.object
        } else {
            let idx = globals.ref_index(*self);
            proof {
                let w = self.0;
                assert(w & 0b1 != 1) by (bit_vector)
                    requires
                        w & 0b0111 == 0,
                ;
                assert(globals.val_ok(globals.heap@[idx as int]));
            }
            match &globals.heap[idx] {
                Value::Object(o) => o.class,
                Value::FixNum(_) => globals.integer,
                Value::String(_) => globals.string,
                _ => globals.object,
            }
        }
    }

    /// The class value of this receiver; the same start point the resolver
    /// uses.
    pub fn get_class_object(&self, globals: &Globals) -> (r: PackedValue)
        requires
            globals.wf(),
            globals.word_ok(self.0),
        ensures
            globals.word_ok(r.0),
            r == globals.spec_class_object_of(self.0),
    {
        self.get_class_object_for_method(globals)
    }

    /// Looks a method up in the own instance-method table of this class
    /// value, without walking ancestors.
    pub fn get_instance_method(&self, globals: &Globals, id: IdentId) -> (r: Option<MethodRef>)
        requires
            globals.wf0(),
            globals.word_ok(self.0),
            globals.is_class_word(self.0),
        ensures
            r == globals.classes@[globals.word_cref(self.0).0 as int].instance_method.spec_get(id),
            r matches Some(m) ==> m.0 < globals.methods.table@.len(),
    {
        let cref = self.as_class(globals);
        proof {
            assert(globals.class_ok(cref.0 as int));
            if globals.classes@[cref.0 as int].instance_method.spec_get(id) is Some {
                lemma_entries_get_is_entry(
                    globals.classes@[cref.0 as int].instance_method.entries@,
                    id,
                );
            }
        }
        globals.classes[cref.0].instance_method.get(id)
    }
}

impl Globals {
    /// The superclass value recorded for a class record: the class object
    /// of its superclass record, when both are set.
    pub open spec fn spec_superclass_val(self, cref: ClassRef) -> Option<PackedValue> {
        match self.classes@[cref.0 as int].superclass {
            Some(s) => {
                if self.classes@[s.0 as int].object.0 == NIL_VALUE {
                    None
                } else {
                    Some(self.classes@[s.0 as int].object)
                }
            },
            None => None,
        }
    }

    /// The class value resolution starts from for a receiver word.
    pub open spec fn spec_class_object_of(self, w: u64) -> PackedValue {
        if crate::value::word_is_fixnum(w) {
            self.integer
        } else if crate::value::word_is_inline(w) {
            self.object
        } else {
            match self.heap_at(w) {
                Value::Object(o) => o.class,
                Value::FixNum(_) => self.integer,
                Value::String(_) => self.string,
                _ => self.object,
            }
        }
    }
}

// ---------------------------------------------------------------------------
// Interning and method installation.
// ---------------------------------------------------------------------------

impl Globals {
    /// Interns a name in the identifier table.
    pub fn get_ident_id(&mut self, name: &str) -> (r: IdentId)
        requires
            old(self).wf0(),
            old(self).idents.names@.len() < 0x8000_0000,
        ensures
            final(self).wf0(),
            crate::vm::grows(*old(self), *final(self)),
            final(self).idents.wf(),
            final(self).idents.valid_id(r),
            final(self).idents.spec_name(r) == name@,
            final(self).heap == old(self).heap,
            final(self).classes == old(self).classes,
            final(self).arrays == old(self).arrays,
            final(self).hashes == old(self).hashes,
            final(self).regexps == old(self).regexps,
            final(self).methodobjs == old(self).methodobjs,
            final(self).iseqs == old(self).iseqs,
            final(self).methods == old(self).methods,
            old(self).idents.names@.len() <= final(self).idents.names@.len() <= old(self).idents.names@.len() + 1,
            forall|j: int|
                0 <= j < old(self).idents.names@.len() ==> final(self).idents.names[j]@ == old(self).idents.names[j]@,
            same_builtins(*old(self), *final(self)),
            old(self).builtins_ok() ==> final(self).builtins_ok(),
    {
        let r = self.idents.get_ident_id(name);
        proof {
            lemma_wf0_extend(*old(self), *self);
        }
        r
    }

    /// Resolves an identifier back to its name.
    pub fn get_ident_name(&self, id: IdentId) -> (r: &String)
        requires
            self.wf0(),
            self.idents.valid_id(id),
        ensures
            r@ == self.idents.spec_name(id),
    {
        self.idents.get_ident_name(id)
    }

    /// Installs a method record under a fresh handle.
    pub fn add_method(&mut self, info: MethodInfo) -> (r: MethodRef)
        requires
            old(self).wf0(),
            old(self).methodinfo_ok(info),
        ensures
            final(self).wf0(),
            crate::vm::grows(*old(self), *final(self)),
            final(self).methods.table@ == old(self).methods.table@.push(info),
            final(self).heap == old(self).heap,
            final(self).classes == old(self).classes,
            final(self).arrays == old(self).arrays,
            final(self).iseqs == old(self).iseqs,
            final(self).idents == old(self).idents,
            r.0 == old(self).methods.table@.len(),
            r.0 < final(self).methods.table@.len(),
            final(self).methods.spec_get(r) == info,
            same_builtins(*old(self), *final(self)),
            old(self).builtins_ok() ==> final(self).builtins_ok(),
    {
        let r = self.methods.add_method(info);
        proof {
            lemma_wf0_extend(*old(self), *self);
        }
        r
    }

    /// Registers a compiled method body.
    pub fn add_iseq(&mut self, info: ISeqInfo) -> (r: crate::method::ISeqRef)
        requires
            old(self).wf0(),
            info.wf(),
        ensures
            final(self).wf0(),
            crate::vm::grows(*old(self), *final(self)),
            final(self).iseqs@ == old(self).iseqs@.push(info),
            final(self).heap == old(self).heap,
            final(self).classes == old(self).classes,
            final(self).methods == old(self).methods,
            final(self).idents == old(self).idents,
            r.0 == old(self).iseqs@.len(),
            r.0 < final(self).iseqs@.len(),
            final(self).iseqs@[r.0 as int] == info,
            same_builtins(*old(self), *final(self)),
            old(self).builtins_ok() ==> final(self).builtins_ok(),
    {
        let r = crate::method::ISeqRef(self.iseqs.len());
        self.iseqs.push(info);
        proof {
            lemma_wf0_extend(*old(self), *self);
        }
        r
    }

    /// Installs a handle into a class's instance-method table; a second
    /// installation under the same name replaces the table entry but leaves
    /// the old record itself untouched.
    pub fn add_instance_method(&mut self, cref: ClassRef, id: IdentId, mref: MethodRef)
        requires
            old(self).wf0(),
            cref.0 < old(self).classes@.len(),
            mref.0 < old(self).methods.table@.len(),
        ensures
            final(self).wf0(),
            crate::vm::grows(*old(self), *final(self)),
            final(self).heap == old(self).heap,
            final(self).arrays == old(self).arrays,
            final(self).methods == old(self).methods,
            final(self).idents == old(self).idents,
            final(self).iseqs == old(self).iseqs,
            final(self).classes@.len() == old(self).classes@.len(),
            forall|i: int|
                0 <= i < old(self).classes@.len() && i != cref.0 ==> final(self).classes@[i] == old(self).classes@[i],
            final(self).classes@[cref.0 as int].instance_method.spec_get(id) == Some(mref),
            forall|k: IdentId|
                k != id ==> final(self).classes@[cref.0 as int].instance_method.spec_get(k) == old(self).classes@[cref.0 as int].instance_method.spec_get(k),
            final(self).classes@[cref.0 as int].class_method == old(self).classes@[cref.0 as int].class_method,
            final(self).classes@[cref.0 as int].superclass == old(self).classes@[cref.0 as int].superclass,
            final(self).classes@[cref.0 as int].included == old(self).classes@[cref.0 as int].included,
            final(self).classes@[cref.0 as int].object == old(self).classes@[cref.0 as int].object,
            same_builtins(*old(self), *final(self)),
            old(self).builtins_ok() ==> final(self).builtins_ok(),
    {
        let idx = cref.0;
        let mut tmp = ClassInfo::new(IdentId(0), None);
        core::mem::swap(&mut tmp, &mut self.classes[idx]);
        proof {
            assert(old(self).class_ok(idx as int));
        }
        tmp.instance_method.insert(id, mref);
        self.classes[idx] = tmp;
        proof {
            let g1 = *old(self);
            let g2 = *self;
            assert(g2.classes@ =~= g1.classes@.update(idx as int, g2.classes@[idx as int]));
            assert(g2.class_ok(idx as int)) by {
                let c1 = g1.classes@[idx as int];
                let c2 = g2.classes@[idx as int];
                assert forall|j: int|
                    0 <= j < c2.instance_method.entries@.len() implies (
                #[trigger] c2.instance_method.entries@[j]).1.0 < g2.methods.table@.len() by {
                    if c2.instance_method.entries@[j] == (id, mref) {
                    } else {
                        assert(c2.instance_method.entries@[j] == c1.instance_method.entries@[j]);
                        assert(c1.instance_method.entries@[j].1.0 < g1.methods.table@.len());
                    }
                }
                assert forall|j: int|
                    0 <= j < c2.class_method.entries@.len() implies (
                #[trigger] c2.class_method.entries@[j]).1.0 < g2.methods.table@.len() by {
                    assert(c1.class_method.entries@[j].1.0 < g1.methods.table@.len());
                }
                assert forall|j: int| 0 <= j < c2.included@.len() implies g2.word_ok(
                    (#[trigger] c2.included@[j]).0,
                ) by {
                    assert(g1.word_ok(c1.included@[j].0));
                }
            }
            lemma_wf0_update_class(g1, g2, idx as int);
        }
    }

    /// Installs a handle into a class's class-level (singleton) method
    /// table.
    pub fn add_class_method(&mut self, cref: ClassRef, id: IdentId, mref: MethodRef)
        requires
            old(self).wf0(),
            cref.0 < old(self).classes@.len(),
            mref.0 < old(self).methods.table@.len(),
        ensures
            final(self).wf0(),
            crate::vm::grows(*old(self), *final(self)),
            final(self).heap == old(self).heap,
            final(self).arrays == old(self).arrays,
            final(self).methods == old(self).methods,
            final(self).idents == old(self).idents,
            final(self).iseqs == old(self).iseqs,
            final(self).classes@.len() == old(self).classes@.len(),
            forall|i: int|
                0 <= i < old(self).classes@.len() && i != cref.0 ==> final(self).classes@[i] == old(self).classes@[i],
            final(self).classes@[cref.0 as int].class_method.spec_get(id) == Some(mref),
            forall|k: IdentId|
                k != id ==> final(self).classes@[cref.0 as int].class_method.spec_get(k) == old(self).classes@[cref.0 as int].class_method.spec_get(k),
            final(self).classes@[cref.0 as int].instance_method == old(self).classes@[cref.0 as int].instance_method,
            final(self).classes@[cref.0 as int].superclass == old(self).classes@[cref.0 as int].superclass,
            final(self).classes@[cref.0 as int].included == old(self).classes@[cref.0 as int].included,
            final(self).classes@[cref.0 as int].object == old(self).classes@[cref.0 as int].object,
            same_builtins(*old(self), *final(self)),
            old(self).builtins_ok() ==> final(self).builtins_ok(),
    {
        let idx = cref.0;
        let mut tmp = ClassInfo::new(IdentId(0), None);
        core::mem::swap(&mut tmp, &mut self.classes[idx]);
        proof {
            assert(old(self).class_ok(idx as int));
        }
        tmp.class_method.insert(id, mref);
        self.classes[idx] = tmp;
        proof {
            let g1 = *old(self);
            let g2 = *self;
            assert(g2.classes@ =~= g1.classes@.update(idx as int, g2.classes@[idx as int]));
            assert(g2.class_ok(idx as int)) by {
                let c1 = g1.classes@[idx as int];
                let c2 = g2.classes@[idx as int];
                assert forall|j: int|
                    0 <= j < c2.class_method.entries@.len() implies (
                #[trigger] c2.class_method.entries@[j]).1.0 < g2.methods.table@.len() by {
                    if c2.class_method.entries@[j] == (id, mref) {
                    } else {
                        assert(c2.class_method.entries@[j] == c1.class_method.entries@[j]);
                        assert(c1.class_method.entries@[j].1.0 < g1.methods.table@.len());
                    }
                }
                assert forall|j: int|
                    0 <= j < c2.instance_method.entries@.len() implies (
                #[trigger] c2.instance_method.entries@[j]).1.0 < g2.methods.table@.len() by {
                    assert(c1.instance_method.entries@[j].1.0 < g1.methods.table@.len());
                }
                assert forall|j: int| 0 <= j < c2.included@.len() implies g2.word_ok(
                    (#[trigger] c2.included@[j]).0,
                ) by {
                    assert(g1.word_ok(c1.included@[j].0));
                }
            }
            lemma_wf0_update_class(g1, g2, idx as int);
        }
    }

    /// Appends a module value to a class's included-module list; earlier
    /// positions are never touched, so resolution order of previously
    /// included modules is preserved.
    pub fn append_included(&mut self, cref: ClassRef, module_val: PackedValue)
        requires
            old(self).wf0(),
            cref.0 < old(self).classes@.len(),
            old(self).word_ok(module_val.0),
        ensures
            final(self).wf0(),
            crate::vm::grows(*old(self), *final(self)),
            final(self).heap == old(self).heap,
            final(self).arrays == old(self).arrays,
            final(self).methods == old(self).methods,
            final(self).idents == old(self).idents,
            final(self).classes@.len() == old(self).classes@.len(),
            forall|i: int|
                0 <= i < old(self).classes@.len() && i != cref.0 ==> final(self).classes@[i] == old(self).classes@[i],
            final(self).classes@[cref.0 as int].included@ == old(self).classes@[cref.0 as int].included@.push(module_val),
            final(self).classes@[cref.0 as int].instance_method == old(self).classes@[cref.0 as int].instance_method,
            final(self).classes@[cref.0 as int].class_method == old(self).classes@[cref.0 as int].class_method,
            final(self).classes@[cref.0 as int].superclass == old(self).classes@[cref.0 as int].superclass,
            final(self).classes@[cref.0 as int].object == old(self).classes@[cref.0 as int].object,
            same_builtins(*old(self), *final(self)),
            old(self).builtins_ok() ==> final(self).builtins_ok(),
    {
        let idx = cref.0;
        let mut tmp = ClassInfo::new(IdentId(0), None);
        core::mem::swap(&mut tmp, &mut self.classes[idx]);
        proof {
            assert(old(self).class_ok(idx as int));
        }
        tmp.included.push(module_val);
        self.classes[idx] = tmp;
        proof {
            let g1 = *old(self);
            let g2 = *self;
            assert(g2.classes@ =~= g1.classes@.update(idx as int, g2.classes@[idx as int]));
            assert(g2.class_ok(idx as int)) by {
                let c1 = g1.classes@[idx as int];
                let c2 = g2.classes@[idx as int];
                assert forall|j: int|
                    0 <= j < c2.instance_method.entries@.len() implies (
                #[trigger] c2.instance_method.entries@[j]).1.0 < g2.methods.table@.len() by {
                    assert(c1.instance_method.entries@[j].1.0 < g1.methods.table@.len());
                }
                assert forall|j: int|
                    0 <= j < c2.class_method.entries@.len() implies (
                #[trigger] c2.class_method.entries@[j]).1.0 < g2.methods.table@.len() by {
                    assert(c1.class_method.entries@[j].1.0 < g1.methods.table@.len());
                }
                assert forall|j: int| 0 <= j < c2.included@.len() implies g2.word_ok(
                    (#[trigger] c2.included@[j]).0,
                ) by {
                    if j < c1.included@.len() {
                        assert(g1.word_ok(c1.included@[j].0));
                    } else {
                        assert(c2.included@[j] == module_val);
                    }
                }
            }
            lemma_wf0_update_class(g1, g2, idx as int);
        }
    }

    /// A native method under `name` is installed in the class's
    /// instance-method table, bound to the given implementation.
    pub open spec fn builtin_installed(
        self,
        cref: ClassRef,
        name: Seq<char>,
        f: crate::method::BuiltinId,
    ) -> bool {
        exists|id: IdentId|
            self.idents.valid_id(id) && self.idents.spec_name(id) == name && (
            #[trigger] self.classes@[cref.0 as int].instance_method.spec_get(id) matches Some(m)
                && m.0 < self.methods.table@.len() && (self.methods.spec_get(m) matches
            MethodInfo::BuiltinFunc { func: f2, .. } && f2 == f))
    }

    /// The same, in the class-level method table.
    pub open spec fn builtin_class_installed(
        self,
        cref: ClassRef,
        name: Seq<char>,
        f: crate::method::BuiltinId,
    ) -> bool {
        exists|id: IdentId|
            self.idents.valid_id(id) && self.idents.spec_name(id) == name && (
            #[trigger] self.classes@[cref.0 as int].class_method.spec_get(id) matches Some(m)
                && m.0 < self.methods.table@.len() && (self.methods.spec_get(m) matches
            MethodInfo::BuiltinFunc { func: f2, .. } && f2 == f))
    }

    /// Interns a name, installs a native method record, and binds it in a
    /// class's instance-method table.
    pub fn add_builtin_instance_method(
        &mut self,
        cref: ClassRef,
        name: &str,
        func: crate::method::BuiltinId,
    )
        requires
            old(self).wf0(),
            cref.0 < old(self).classes@.len(),
            old(self).idents.names@.len() < 0x8000_0000,
        ensures
            final(self).wf0(),
            crate::vm::grows(*old(self), *final(self)),
            final(self).heap == old(self).heap,
            final(self).classes@.len() == old(self).classes@.len(),
            final(self).arrays == old(self).arrays,
            final(self).iseqs == old(self).iseqs,
            final(self).idents.names@.len() <= old(self).idents.names@.len() + 1,
            same_builtins(*old(self), *final(self)),
            old(self).builtins_ok() ==> final(self).builtins_ok(),
            final(self).builtin_installed(cref, name@, func),
            forall|nm: Seq<char>, f2: crate::method::BuiltinId, c2: ClassRef|
                c2.0 < old(self).classes@.len() && old(self).builtin_installed(c2, nm, f2) && nm
                    != name@ ==> final(self).builtin_installed(c2, nm, f2),
            forall|nm: Seq<char>, f2: crate::method::BuiltinId, c2: ClassRef|
                c2.0 < old(self).classes@.len() && old(self).builtin_class_installed(c2, nm, f2)
                    ==> final(self).builtin_class_installed(c2, nm, f2),
    {
        let id = self.get_ident_id(name);
        let owned = name.to_owned();
        let mref = self.add_method(MethodInfo::BuiltinFunc { name: owned, func });
        self.add_instance_method(cref, id, mref);
        proof {
            assert(self.classes@[cref.0 as int].instance_method.spec_get(id) == Some(mref));
            assert(self.builtin_installed(cref, name@, func));
            assert forall|nm: Seq<char>, f2: crate::method::BuiltinId, c2: ClassRef|
                c2.0 < old(self).classes@.len() && old(self).builtin_installed(c2, nm, f2) && nm
                    != name@ implies self.builtin_installed(c2, nm, f2) by {
                let idp = choose|idp: IdentId|
                    old(self).idents.valid_id(idp) && old(self).idents.spec_name(idp) == nm && (
                    #[trigger] old(self).classes@[c2.0 as int].instance_method.spec_get(idp)
                        matches Some(m) && m.0 < old(self).methods.table@.len() && (old(
                        self,
                    ).methods.spec_get(m) matches MethodInfo::BuiltinFunc { func: fp, .. } && fp
                        == f2));
                assert(self.idents.spec_name(idp) == nm);
                assert(idp != id);
                assert(self.classes@[c2.0 as int].instance_method.spec_get(idp) == old(
                    self,
                ).classes@[c2.0 as int].instance_method.spec_get(idp));
            }
            assert forall|nm: Seq<char>, f2: crate::method::BuiltinId, c2: ClassRef|
                c2.0 < old(self).classes@.len() && old(self).builtin_class_installed(
                    c2,
                    nm,
                    f2,
                ) implies self.builtin_class_installed(c2, nm, f2) by {
                let idp = choose|idp: IdentId|
                    old(self).idents.valid_id(idp) && old(self).idents.spec_name(idp) == nm && (
                    #[trigger] old(self).classes@[c2.0 as int].class_method.spec_get(idp)
                        matches Some(m) && m.0 < old(self).methods.table@.len() && (old(
                        self,
                    ).methods.spec_get(m) matches MethodInfo::BuiltinFunc { func: fp, .. } && fp
                        == f2));
                assert(self.idents.spec_name(idp) == nm);
                assert(self.classes@[c2.0 as int].class_method.spec_get(idp) == old(
                    self,
                ).classes@[c2.0 as int].class_method.spec_get(idp));
            }
        }
    }

    /// The same, into the class-level method table of a class value.
    pub fn add_builtin_class_method(
        &mut self,
        class_obj: PackedValue,
        name: &str,
        func: crate::method::BuiltinId,
    )
        requires
            old(self).wf0(),
            old(self).word_ok(class_obj.0),
            old(self).is_class_word(class_obj.0),
            old(self).idents.names@.len() < 0x8000_0000,
        ensures
            final(self).wf0(),
            crate::vm::grows(*old(self), *final(self)),
            final(self).heap == old(self).heap,
            final(self).classes@.len() == old(self).classes@.len(),
            final(self).arrays == old(self).arrays,
            final(self).iseqs == old(self).iseqs,
            final(self).idents.names@.len() <= old(self).idents.names@.len() + 1,
            same_builtins(*old(self), *final(self)),
            old(self).builtins_ok() ==> final(self).builtins_ok(),
            final(self).builtin_class_installed(
                old(self).word_cref(class_obj.0),
                name@,
                func,
            ),
            forall|nm: Seq<char>, f2: crate::method::BuiltinId, c2: ClassRef|
                c2.0 < old(self).classes@.len() && old(self).builtin_installed(c2, nm, f2)
                    ==> final(self).builtin_installed(c2, nm, f2),
            forall|nm: Seq<char>, f2: crate::method::BuiltinId, c2: ClassRef|
                c2.0 < old(self).classes@.len() && old(self).builtin_class_installed(c2, nm, f2)
                    && nm != name@ ==> final(self).builtin_class_installed(c2, nm, f2),
    {
        let cref = class_obj.as_class(self);
        proof {
            assert(self.class_ok(cref.0 as int));
        }
        let id = self.get_ident_id(name);
        let owned = name.to_owned();
        let mref = self.add_method(MethodInfo::BuiltinFunc { name: owned, func });
        self.add_class_method(cref, id, mref);
        proof {
            assert(self.classes@[cref.0 as int].class_method.spec_get(id) == Some(mref));
            assert(self.builtin_class_installed(cref, name@, func));
            assert forall|nm: Seq<char>, f2: crate::method::BuiltinId, c2: ClassRef|
                c2.0 < old(self).classes@.len() && old(self).builtin_installed(
                    c2,
                    nm,
                    f2,
                ) implies self.builtin_installed(c2, nm, f2) by {
                let idp = choose|idp: IdentId|
                    old(self).idents.valid_id(idp) && old(self).idents.spec_name(idp) == nm && (
                    #[trigger] old(self).classes@[c2.0 as int].instance_method.spec_get(idp)
                        matches Some(m) && m.0 < old(self).methods.table@.len() && (old(
                        self,
                    ).methods.spec_get(m) matches MethodInfo::BuiltinFunc { func: fp, .. } && fp
                        == f2));
                assert(self.idents.spec_name(idp) == nm);
                assert(self.classes@[c2.0 as int].instance_method.spec_get(idp) == old(
                    self,
                ).classes@[c2.0 as int].instance_method.spec_get(idp));
            }
            assert forall|nm: Seq<char>, f2: crate::method::BuiltinId, c2: ClassRef|
                c2.0 < old(self).classes@.len() && old(self).builtin_class_installed(c2, nm, f2)
                    && nm != name@ implies self.builtin_class_installed(c2, nm, f2) by {
                let idp = choose|idp: IdentId|
                    old(self).idents.valid_id(idp) && old(self).idents.spec_name(idp) == nm && (
                    #[trigger] old(self).classes@[c2.0 as int].class_method.spec_get(idp)
                        matches Some(m) && m.0 < old(self).methods.table@.len() && (old(
                        self,
                    ).methods.spec_get(m) matches MethodInfo::BuiltinFunc { func: fp, .. } && fp
                        == f2));
                assert(self.idents.spec_name(idp) == nm);
                assert(idp != id);
                assert(self.classes@[c2.0 as int].class_method.spec_get(idp) == old(
                    self,
                ).classes@[c2.0 as int].class_method.spec_get(idp));
            }
        }
    }
}

/// Replacing one array payload keeps the state well-formed, provided the
/// new payload's elements are live words.
pub proof fn lemma_wf0_update_array(g1: Globals, g2: Globals, idx: int)
    requires
        g1.wf0(),
        0 <= idx < g1.arrays@.len(),
        g2.arrays@ == g1.arrays@.update(idx, g2.arrays@[idx]),
        g2.heap == g1.heap,
        g2.classes == g1.classes,
        g2.hashes == g1.hashes,
        g2.regexps == g1.regexps,
        g2.methodobjs == g1.methodobjs,
        g2.iseqs == g1.iseqs,
        g2.methods == g1.methods,
        g2.idents == g1.idents,
        g2.aryinfo_ok(g2.arrays@[idx]),
        same_builtins(g1, g2),
    ensures
        g2.wf0(),
        g1.builtins_ok() ==> g2.builtins_ok(),
{
    assert forall|w: u64| g1.is_class_word(w) implies g2.is_class_word(w) by {
        assert(g2.heap@ == g1.heap@);
    }
    assert forall|i: int| 0 <= i < g2.heap@.len() implies g2.val_ok(#[trigger] g2.heap@[i]) by {
        assert(g1.val_ok(g1.heap@[i]));
    }
    assert forall|i: int| 0 <= i < g2.classes@.len() implies g2.class_ok(i) by {
        assert(g1.class_ok(i));
        let c = g1.classes@[i];
        if c.object.0 != NIL_VALUE {
            assert(g1.is_class_word(c.object.0));
        }
    }
    assert forall|i: int| 0 <= i < g2.arrays@.len() implies g2.aryinfo_ok(
        #[trigger] g2.arrays@[i],
    ) by {
        if i != idx {
            assert(g2.arrays@[i] == g1.arrays@[i]);
            assert(g1.aryinfo_ok(g1.arrays@[i]));
        }
    }
    assert forall|i: int| 0 <= i < g2.hashes@.len() implies g2.hashinfo_ok(
        #[trigger] g2.hashes@[i],
    ) by {
        assert(g1.hashinfo_ok(g1.hashes@[i]));
    }
    assert forall|i: int| 0 <= i < g2.methodobjs@.len() implies g2.mobj_ok(
        #[trigger] g2.methodobjs@[i],
    ) by {
        assert(g1.mobj_ok(g1.methodobjs@[i]));
    }
    assert forall|i: int| 0 <= i < g2.methods.table@.len() implies g2.methodinfo_ok(
        #[trigger] g2.methods.table@[i],
    ) by {
        assert(g1.methodinfo_ok(g1.methods.table@[i]));
    }
}

impl Globals {
    /// Replaces the element vector of one array payload.
    pub fn replace_elements(&mut self, aref: crate::object::ArrayRef, elements: Vec<PackedValue>)
        requires
            old(self).wf0(),
            aref.0 < old(self).arrays@.len(),
            forall|j: int|
                0 <= j < elements@.len() ==> old(self).word_ok((#[trigger] elements@[j]).0),
        ensures
            final(self).wf0(),
            crate::vm::grows(*old(self), *final(self)),
            final(self).heap == old(self).heap,
            final(self).classes == old(self).classes,
            final(self).hashes == old(self).hashes,
            final(self).regexps == old(self).regexps,
            final(self).methodobjs == old(self).methodobjs,
            final(self).iseqs == old(self).iseqs,
            final(self).methods == old(self).methods,
            final(self).idents == old(self).idents,
            final(self).arrays@.len() == old(self).arrays@.len(),
            forall|i: int|
                0 <= i < old(self).arrays@.len() && i != aref.0 ==> final(self).arrays@[i] == old(self).arrays@[i],
            final(self).arrays@[aref.0 as int].elements == elements,
            same_builtins(*old(self), *final(self)),
            old(self).builtins_ok() ==> final(self).builtins_ok(),
    {
        self.arrays[aref.0] = ArrayInfo { elements };
        proof {
            let g1 = *old(self);
            let g2 = *self;
            assert(g2.arrays@ =~= g1.arrays@.update(aref.0 as int, g2.arrays@[aref.0 as int]));
            lemma_wf0_update_array(g1, g2, aref.0 as int);
        }
    }

    /// A fresh copy of one array payload's elements.
    pub fn elements_copy(&self, aref: crate::object::ArrayRef) -> (r: Vec<PackedValue>)
        requires
            self.wf0(),
            aref.0 < self.arrays@.len(),
        ensures
            r@ == self.arrays@[aref.0 as int].elements@,
            forall|j: int| 0 <= j < r@.len() ==> self.word_ok((#[trigger] r@[j]).0),
    {
        let r = copy_vec(&self.arrays[aref.0].elements);
        proof {
            assert(self.aryinfo_ok(self.arrays@[aref.0 as int]));
        }
        r
    }
}

// ---------------------------------------------------------------------------
// Logical equality.
// ---------------------------------------------------------------------------

/// A numeric payload: an integer, or a floating-point bit pattern.
#[derive(Clone, Copy, Debug, PartialEq, Eq, Structural)]
pub enum NumRepr {
    Int(i64),
    Float(u64),
}

/// The exact integer a floating-point bit pattern denotes, when its value
/// is integral and fits a 64-bit signed integer: sign, biased exponent and
/// fraction are decomposed by the standard double-precision layout, and
/// the fraction bits below the binary point must be zero.
pub open spec fn float_bits_exact_int(bits: u64) -> Option<i64> {
    let s = bits >> 63;
    let e = (bits >> 52) & 0x7ff;
    let frac = bits & 0xF_FFFF_FFFF_FFFF;
    if e == 0 {
        if frac == 0 {
            Some(0i64)
        } else {
            None
        }
    } else if e < 1023 {
        None
    } else if e > 1086 {
        None
    } else if e == 1086 {
        if frac == 0 && s == 1 {
            Some(i64::MIN)
        } else {
            None
        }
    } else {
        let ub = (e - 1023) as u64;
        if ub >= 52 {
            let mag = (((0x10_0000_0000_0000u64 + frac) as u64) << (((ub - 52) as u64)) as u64) as u64;
            if s == 1 {
                Some((0 - mag as i64) as i64)
            } else {
                Some(mag as i64)
            }
        } else {
            let sh = (52 - ub) as u64;
            if frac & (((1u64 << sh) - 1) as u64) != 0 {
                None
            } else {
                let mag = (((0x10_0000_0000_0000u64 + frac) as u64) >> sh) as u64;
                if s == 1 {
                    Some((0 - mag as i64) as i64)
                } else {
                    Some(mag as i64)
                }
            }
        }
    }
}

/// Computes the exact integer of a floating-point bit pattern.
pub fn float_bits_as_int(bits: u64) -> (r: Option<i64>)
    ensures
        r == float_bits_exact_int(bits),
{
    let s = bits >> 63;
    let e = (bits >> 52) & 0x7ff;
    let frac = bits & 0xF_FFFF_FFFF_FFFF;
    proof {
        assert(frac <= 0xF_FFFF_FFFF_FFFF) by (bit_vector)
            requires
                frac == bits & 0xF_FFFF_FFFF_FFFF,
        ;
        assert(e <= 0x7ff) by (bit_vector)
            requires
                e == (bits >> 52) & 0x7ff,
        ;
    }
    if e == 0 {
        if frac == 0 {
            Some(0)
        } else {
            None
        }
    } else if e < 1023 {
        None
    } else if e > 1086 {
        None
    } else if e == 1086 {
        if frac == 0 && s == 1 {
            Some(i64::MIN)
        } else {
            None
        }
    } else {
        let ub = e - 1023;
        if ub >= 52 {
            let sh = ub - 52;
            let mag = (0x10_0000_0000_0000u64 + frac) << sh;
            proof {
                assert(mag < 0x8000_0000_0000_0000) by (bit_vector)
                    requires
                        mag == ((0x10_0000_0000_0000u64 + frac) as u64) << sh,
                        frac <= 0xF_FFFF_FFFF_FFFF,
                        sh <= 10,
                ;
            }
            if s == 1 {
                Some(-(mag as i64))
            } else {
                Some(mag as i64)
            }
        } else {
            let sh = 52 - ub;
            proof {
                assert(1u64 << sh >= 1) by (bit_vector)
                    requires
                        sh <= 52,
                ;
            }
            if frac & ((1u64 << sh) - 1) != 0 {
                None
            } else {
                let mag = (0x10_0000_0000_0000u64 + frac) >> sh;
                proof {
                    assert(mag < 0x8000_0000_0000_0000) by (bit_vector)
                        requires
                            mag == ((0x10_0000_0000_0000u64 + frac) as u64) >> sh,
                            frac <= 0xF_FFFF_FFFF_FFFF,
                            sh <= 52,
                    ;
                }
                if s == 1 {
                    Some(-(mag as i64))
                } else {
                    Some(mag as i64)
                }
            }
        }
    }
}

/// The numeric payload a word holds, inline or boxed; absent for every
/// non-number.
pub open spec fn spec_num_of(g: Globals, w: u64) -> Option<NumRepr> {
    if crate::value::word_is_fixnum(w) {
        Some(NumRepr::Int(crate::value::decode_fixnum(w)))
    } else if crate::value::word_is_flonum(w) {
        Some(NumRepr::Float(crate::value::decode_flonum(w)))
    } else if word_is_ref(w) && decode_ref(w) < g.heap@.len() {
        match g.heap_at(w) {
            Value::FixNum(i) => Some(NumRepr::Int(i)),
            Value::FloatNum(b) => Some(NumRepr::Float(b)),
            _ => None,
        }
    } else {
        None
    }
}

/// Numeric-tower equality: integers by value, floating-point patterns by
/// their bits, and an integer equal to a floating-point pattern exactly
/// when the pattern denotes that integer.
pub open spec fn nums_equal(x: NumRepr, y: NumRepr) -> bool {
    match (x, y) {
        (NumRepr::Int(i), NumRepr::Int(j)) => i == j,
        (NumRepr::Float(p), NumRepr::Float(q)) => p == q,
        (NumRepr::Int(i), NumRepr::Float(q)) => float_bits_exact_int(q) == Some(i),
        (NumRepr::Float(p), NumRepr::Int(j)) => float_bits_exact_int(p) == Some(j),
    }
}

impl PackedValue {
    /// The numeric payload of this word, if it is a number.
    pub fn num_of(&self, globals: &Globals) -> (r: Option<NumRepr>)
        requires
            globals.wf0(),
            globals.word_ok(self.0),
        ensures
            r == spec_num_of(*globals, self.0),
    {
        if self.is_packed_fixnum() {
            Some(NumRepr::Int(self.as_packed_fixnum()))
        } else if self.is_packed_num() {
            Some(NumRepr::Float(self.as_packed_flonum_bits()))
        } else if self.is_packed_value() {
            proof {
                crate::value::lemma_sentinels();
            }
            None
        } else {
            let idx = globals.ref_index(*self);
            proof {
                let w = self.0;
                assert(w & 0b1 != 1 && w & 0b11 != 0b10) by (bit_vector)
                    requires
                        w & 0b0111 == 0,
                ;
            }
            match &globals.heap[idx] {
                Value::FixNum(i) => Some(NumRepr::Int(*i)),
                Value::FloatNum(b) => Some(NumRepr::Float(*b)),
                _ => None,
            }
        }
    }
}

/// Compares two numeric payloads under the numeric tower.
pub fn nums_equal_exec(x: NumRepr, y: NumRepr) -> (r: bool)
    ensures
        r == nums_equal(x, y),
{
    match (x, y) {
        (NumRepr::Int(i), NumRepr::Int(j)) => i == j,
        (NumRepr::Float(p), NumRepr::Float(q)) => p == q,
        (NumRepr::Int(i), NumRepr::Float(q)) => {
            match float_bits_as_int(q) {
                Some(v) => v == i,
                None => false,
            }
        },
        (NumRepr::Float(p), NumRepr::Int(j)) => {
            match float_bits_as_int(p) {
                Some(v) => v == j,
                None => false,
            }
        },
    }
}

/// Logical equality of two words, to a bounded depth: equal words are
/// equal values; numbers follow the numeric tower (integers by value,
/// whether inline or boxed, and an integer equals a floating-point pattern
/// of that exact magnitude); boxed strings compare by their text; arrays
/// compare element by element.  Everything else compares by identity.  The
/// depth bound makes comparison of a malformed, self-referential array
/// terminate (it compares unequal) instead of diverging.
pub open spec fn spec_val_equal(g: Globals, a: u64, b: u64, fuel: nat) -> bool
    decreases fuel,
{
    if a == b {
        true
    } else if spec_num_of(g, a) is Some && spec_num_of(g, b) is Some {
        nums_equal(spec_num_of(g, a)->0, spec_num_of(g, b)->0)
    } else if fuel == 0 {
        false
    } else if !crate::value::word_is_inline(a) && !crate::value::word_is_inline(b) && (g.heap_at(a)
        matches Value::String(_)) && (g.heap_at(b) matches Value::String(_)) {
        g.heap_at(a)->String_0@ == g.heap_at(b)->String_0@
    } else if g.spec_as_array(a) is Some && g.spec_as_array(b) is Some {
        let ea = g.arrays@[(g.spec_as_array(a)->0).0 as int].elements@;
        let eb = g.arrays@[(g.spec_as_array(b)->0).0 as int].elements@;
        ea.len() == eb.len() && forall|i: int|
            0 <= i < ea.len() ==> spec_val_equal(g, (#[trigger] ea[i]).0, eb[i].0, (fuel - 1) as nat)
    } else {
        false
    }
}

impl PackedValue {
    /// Structural equality at a given depth bound.
    pub fn equal_depth(&self, globals: &Globals, other: PackedValue, fuel: usize) -> (r: bool)
        requires
            globals.wf0(),
            globals.word_ok(self.0),
            globals.word_ok(other.0),
        ensures
            r == spec_val_equal(*globals, self.0, other.0, fuel as nat),
        decreases fuel,
    {
        if self.0 == other.0 {
            return true;
        }
        match (self.num_of(globals), other.num_of(globals)) {
            (Some(x), Some(y)) => {
                return nums_equal_exec(x, y);
            },
            _ => {},
        }
        if fuel == 0 {
            return false;
        }
        match (self.as_string(globals), other.as_string(globals)) {
            (Some(s1), Some(s2)) => {
                return *s1 == *s2;
            },
            _ => {},
        }
        let aref1 = self.as_array(globals);
        let aref2 = other.as_array(globals);
        match (aref1, aref2) {
            (Some(a1), Some(a2)) => {
                let n1 = globals.arrays[a1.0].elements.len();
                let n2 = globals.arrays[a2.0].elements.len();
                if n1 != n2 {
                    return false;
                }
                let ghost ea = globals.arrays@[a1.0 as int].elements@;
                let ghost eb = globals.arrays@[a2.0 as int].elements@;
                let mut i: usize = 0;
                while i < n1
                    invariant
                        globals.wf0(),
                        globals.word_ok(self.0),
                        globals.word_ok(other.0),
                        self.0 != other.0,
                        !(spec_num_of(*globals, self.0) is Some && spec_num_of(*globals, other.0)
                            is Some),
                        globals.spec_as_array(self.0) == Some(a1),
                        globals.spec_as_array(other.0) == Some(a2),
                        a1.0 < globals.arrays@.len(),
                        a2.0 < globals.arrays@.len(),
                        ea == globals.arrays@[a1.0 as int].elements@,
                        eb == globals.arrays@[a2.0 as int].elements@,
                        n1 == ea.len(),
                        n2 == eb.len(),
                        n1 == n2,
                        i <= n1,
                        fuel >= 1,
                        forall|j: int|
                            0 <= j < i ==> spec_val_equal(
                                *globals,
                                (#[trigger] ea[j]).0,
                                eb[j].0,
                                (fuel - 1) as nat,
                            ),
                    decreases n1 - i,
                {
                    let x = globals.arrays[a1.0].elements[i];
                    let y = globals.arrays[a2.0].elements[i];
                    proof {
                        assert(globals.aryinfo_ok(globals.arrays@[a1.0 as int]));
                        assert(globals.aryinfo_ok(globals.arrays@[a2.0 as int]));
                    }
                    if !x.equal_depth(globals, y, fuel - 1) {
                        proof {
                            assert(!spec_val_equal(*globals, self.0, other.0, fuel as nat)) by {
                                assert(0 <= i < ea.len() && !spec_val_equal(
                                    *globals,
                                    ea[i as int].0,
                                    eb[i as int].0,
                                    (fuel - 1) as nat,
                                ));
                            }
                        }
                        return false;
                    }
                    i += 1;
                }
                return true;
            },
            _ => {
                return false;
            },
        }
    }

    /// Structural equality, with a depth bound as large as any acyclic
    /// nesting of the runtime's arrays can reach.
    pub fn equal(&self, globals: &Globals, other: PackedValue) -> (r: bool)
        requires
            globals.wf0(),
            globals.word_ok(self.0),
            globals.word_ok(other.0),
            globals.arrays@.len() < usize::MAX,
        ensures
            r == spec_val_equal(
                *globals,
                self.0,
                other.0,
                (globals.arrays@.len() + 1) as nat,
            ),
    {
        let fuel = globals.arrays.len() + 1;
        self.equal_depth(globals, other, fuel)
    }
}

// ---------------------------------------------------------------------------
// Bootstrap.
// ---------------------------------------------------------------------------

impl Globals {
    /// Sets the owning-class value of one heap object, keeping its kind and
    /// variable table.
    fn set_obj_class(&mut self, obj: PackedValue, class: PackedValue)
        requires
            old(self).wf0(),
            old(self).word_ok(obj.0),
            old(self).is_obj_word(obj.0),
            old(self).word_ok(class.0),
        ensures
            final(self).wf0(),
            final(self).heap@.len() == old(self).heap@.len(),
            final(self).classes == old(self).classes,
            final(self).arrays == old(self).arrays,
            final(self).hashes == old(self).hashes,
            final(self).regexps == old(self).regexps,
            final(self).methodobjs == old(self).methodobjs,
            final(self).iseqs == old(self).iseqs,
            final(self).methods == old(self).methods,
            final(self).idents == old(self).idents,
            same_builtins(*old(self), *final(self)),
            old(self).builtins_ok() ==> final(self).builtins_ok(),
            final(self).is_obj_word(obj.0),
            final(self).obj_at(obj.0).class == class,
            final(self).obj_at(obj.0).kind == old(self).obj_at(obj.0).kind,
            final(self).obj_at(obj.0).var_table == old(self).obj_at(obj.0).var_table,
            forall|w: u64|
                decode_ref(w) != decode_ref(obj.0) && decode_ref(w) < old(self).heap@.len()
                    ==> final(self).heap_at(w) == old(self).heap_at(w),
            forall|w: u64|
                old(self).is_class_word(w) ==> final(self).is_class_word(w) && final(self).word_cref(w) == old(self).word_cref(w),
    {
        let idx = self.ref_index(obj);
        let mut tmp = Value::Nil;
        core::mem::swap(&mut tmp, &mut self.heap[idx]);
        let mut o = match tmp {
            Value::Object(o) => o,
            _ => {
                proof {
                    assert(false);
                }
                ObjectInfo::new_ordinary(PackedValue::nil())
            },
        };
        proof {
            assert(o == old(self).obj_at(obj.0));
        }
        o.class = class;
        let ghost o2 = o;
        self.heap[idx] = Value::Object(o);
        proof {
            let g1 = *old(self);
            let g2 = *self;
            assert(g2.heap@ =~= g1.heap@.update(idx as int, Value::Object(o2)));
            assert(g1.val_ok(g1.heap@[idx as int]));
            assert(g2.val_ok(g2.heap@[idx as int]));
            lemma_wf0_update_obj(g1, g2, idx as int);
        }
    }

    /// Builds a fresh runtime: the identifier table, the first class
    /// records (Object at the chain's root, Module under it, Class under
    /// Module, and the built-in value classes under Object), their class
    /// objects, and the native methods of the built-in classes.
    pub fn new() -> (g: Globals)
        ensures
            g.wf(),
            g.spec_can_alloc(),
            g.idents.valid_id(g.initialize_id),
            g.idents.names@.len() < 0x1000,
    {
        let mut g = Globals {
            idents: IdentTable::new(),
            methods: GlobalMethodTable::new(),
            heap: Vec::new(),
            classes: Vec::new(),
            arrays: Vec::new(),
            hashes: Vec::new(),
            regexps: Vec::new(),
            methodobjs: Vec::new(),
            iseqs: Vec::new(),
            object: PackedValue::nil(),
            module_class: PackedValue::nil(),
            class_class: PackedValue::nil(),
            integer: PackedValue::nil(),
            string: PackedValue::nil(),
            array: PackedValue::nil(),
            initialize_id: IdentId(0),
        };
        proof {
            crate::value::lemma_sentinels();
            assert(g.wf0());
        }
        let object_id = g.get_ident_id("Object");
        let module_id = g.get_ident_id("Module");
        let class_id = g.get_ident_id("Class");
        let integer_id = g.get_ident_id("Integer");
        let string_id = g.get_ident_id("String");
        let array_id = g.get_ident_id("Array");
        let init_id = g.get_ident_id("initialize");
        g.initialize_id = init_id;
        // the first class records: Object is the chain's root
        let object_cref = crate::object::ClassRef(g.classes.len());
        g.classes.push(ClassInfo::new(object_id, None));
        proof {
            assert forall|i: int| 0 <= i < g.classes@.len() implies g.class_ok(i) by {
                assert(i == 0);
                assert(g.class_ok(0));
            }
            assert(g.wf0());
        }
        let module_cref = crate::object::ClassRef(g.classes.len());
        g.classes.push(ClassInfo::new(module_id, Some(object_cref)));
        proof {
            assert forall|i: int| 0 <= i < g.classes@.len() implies g.class_ok(i) by {
                assert(g.class_ok(0));
                assert(g.class_ok(1));
            }
            assert(g.wf0());
        }
        let class_cref = crate::object::ClassRef(g.classes.len());
        g.classes.push(ClassInfo::new(class_id, Some(module_cref)));
        proof {
            assert forall|i: int| 0 <= i < g.classes@.len() implies g.class_ok(i) by {
                assert(g.class_ok(0));
                assert(g.class_ok(1));
                assert(g.class_ok(2));
            }
            assert(g.wf0());
        }
        // their class objects, patched below to belong to the Class class
        let object_val = PackedValue::bootstrap_class(&mut g, object_cref);
        let module_val = PackedValue::bootstrap_class(&mut g, module_cref);
        let class_val = PackedValue::bootstrap_class(&mut g, class_cref);
        g.set_obj_class(object_val, class_val);
        g.set_obj_class(module_val, class_val);
        g.set_obj_class(class_val, class_val);
        g.object = object_val;
        g.module_class = module_val;
        g.class_class = class_val;
        // the built-in value classes
        let integer_cref = crate::object::ClassRef::from(&mut g, integer_id, Some(object_cref));
        let integer_val = PackedValue::class(&mut g, integer_cref);
        g.integer = integer_val;
        let string_cref = crate::object::ClassRef::from(&mut g, string_id, Some(object_cref));
        let string_val = PackedValue::class(&mut g, string_cref);
        g.string = string_val;
        let array_cref = crate::object::ClassRef::from(&mut g, array_id, Some(object_cref));
        let array_val = PackedValue::class(&mut g, array_cref);
        g.array = array_val;
        proof {
            assert(g.builtins_ok());
        }
        // the native methods of the built-in classes
        crate::class::init_class(&mut g);
        let _ = crate::array::init_array(&mut g);
        let _ = crate::string::init_string(&mut g);
        crate::reflect::init(&mut g);
        crate::builtin::Builtin::init_builtin(&mut g);
        g
    }
}

/// A looked-up value is one of the table's entries.
pub proof fn lemma_entries_get_is_entry<T>(s: Seq<(IdentId, T)>, id: IdentId)
    requires
        crate::idmap::entries_get(s, id) is Some,
    ensures
        exists|j: int|
            0 <= j < s.len() && (#[trigger] s[j]).0 == id && s[j].1
                == crate::idmap::entries_get(s, id)->0,
    decreases s.len(),
{
    if s.len() > 0 {
        if s[0].0 == id {
            assert(s[0].0 == id && s[0].1 == crate::idmap::entries_get(s, id)->0);
        } else {
            lemma_entries_get_is_entry(s.drop_first(), id);
            let j = choose|j: int|
                0 <= j < s.drop_first().len() && (#[trigger] s.drop_first()[j]).0 == id
                    && s.drop_first()[j].1 == crate::idmap::entries_get(s.drop_first(), id)->0;
            assert(s[j + 1].0 == id && s[j + 1].1 == crate::idmap::entries_get(s, id)->0);
        }
    }
}

} // verus!
