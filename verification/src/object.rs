//! The heap object model.
//!
//! Every boxed object shares one envelope: a kind tag, the value of its
//! originating class, and an instance-variable table.  Specialised payloads
//! (array elements, range bounds, a bound method, a match pattern) live in
//! side arenas addressed by stable handles.

use vstd::prelude::*;
use crate::ident::IdentId;
use crate::idmap::IdMap;
use crate::method::MethodRef;
use crate::value::PackedValue;

verus! {

/// Handle of an object envelope in the heap arena.
#[derive(Clone, Copy, Debug, PartialEq, Eq, Hash, Structural)]
pub struct ObjectRef(pub usize);

/// Handle of a class/module record in the class arena.
#[derive(Clone, Copy, Debug, PartialEq, Eq, Hash, Structural)]
pub struct ClassRef(pub usize);

/// Handle of an array payload in the array arena.
#[derive(Clone, Copy, Debug, PartialEq, Eq, Hash, Structural)]
pub struct ArrayRef(pub usize);

/// Handle of a hash payload in the hash arena.
#[derive(Clone, Copy, Debug, PartialEq, Eq, Hash, Structural)]
pub struct HashRef(pub usize);

/// Handle of a bound-method payload.
#[derive(Clone, Copy, Debug, PartialEq, Eq, Hash, Structural)]
pub struct MethodObjRef(pub usize);

/// Handle of a match-pattern payload.
#[derive(Clone, Copy, Debug, PartialEq, Eq, Hash, Structural)]
pub struct RegexpRef(pub usize)
;

/// An owned sequence of values.
#[derive(Debug, Clone, PartialEq)]
#[verifier::ext_equal]
pub struct ArrayInfo {
    pub elements: Vec<PackedValue>,
}

impl ArrayInfo {
    pub fn new(elements: Vec<PackedValue>) -> (r: ArrayInfo)
        ensures
            r.elements == elements,
    {
        ArrayInfo { elements }
    }
}

/// An owned association list of key/value pairs.
#[derive(Debug, Clone, PartialEq)]
#[verifier::ext_equal]
pub struct HashInfo {
    pub pairs: Vec<(PackedValue, PackedValue)>,
}

/// A range with owned bounds and an exclusive-end flag.
#[derive(Debug, Clone, Copy, PartialEq, Eq, Structural)]
pub struct RangeInfo {
    pub start: PackedValue,
    pub end: PackedValue,
    pub exclude: bool,
}

impl RangeInfo {
    pub fn new(start: PackedValue, end: PackedValue, exclude: bool) -> (r: RangeInfo)
        ensures
            r == (RangeInfo { start, end, exclude }),
    {
        RangeInfo { start, end, exclude }
    }
}

/// A method snapshotted at bind time, together with its receiver.
#[derive(Debug, Clone, Copy, PartialEq, Eq, Structural)]
pub struct MethodObjInfo {
    pub name: IdentId,
    pub receiver: PackedValue,
    pub method: MethodRef,
}

/// A compiled match pattern, kept by its source text; matching is delegated
/// to the pattern engine when the pattern is used.
#[derive(Debug, Clone, PartialEq)]
#[verifier::ext_equal]
pub struct RegexpInfo {
    pub source: String,
}

/// The payload discriminant of a heap object.
#[derive(Debug, Clone, Copy, PartialEq)]
#[verifier::ext_equal]
pub enum ObjKind {
    Ordinary,
    Class(ClassRef),
    Module(ClassRef),
    Array(ArrayRef),
    SplatArray(ArrayRef),
    Hash(HashRef),
    Range(RangeInfo),
    Method(MethodObjRef),
    Regexp(RegexpRef),
}

/// The common envelope of every heap object.
#[derive(Debug, Clone, PartialEq)]
#[verifier::ext_equal]
pub struct ObjectInfo {
    pub class: PackedValue,
    pub var_table: IdMap<PackedValue>,
    pub kind: ObjKind,
}

impl ObjectInfo {
    /// An envelope whose class value is filled in later, used only while
    /// the first classes of the runtime are being created.
    pub fn new_bootstrap(classref: ClassRef) -> (r: ObjectInfo)
        ensures
            r.class == PackedValue::spec_nil(),
            r.kind == (ObjKind::Class(classref)),
            r.var_table.entries@.len() == 0,
            r.var_table.wf(),
    {
        ObjectInfo { class: PackedValue::nil(), var_table: IdMap::new(), kind: ObjKind::Class(classref) }
    }

    /// A plain instance of the given class, with an empty variable table.
    pub fn new_ordinary(class: PackedValue) -> (r: ObjectInfo)
        ensures
            r.class == class,
            r.kind == (ObjKind::Ordinary),
            r.var_table.entries@.len() == 0,
            r.var_table.wf(),
    {
        ObjectInfo { class, var_table: IdMap::new(), kind: ObjKind::Ordinary }
    }
}

/// A class record: its name, its two method tables, its superclass link,
/// its included modules in inclusion order, and the value of the class
/// object that owns it.
#[derive(Debug, Clone)]
#[verifier::ext_equal]
pub struct ClassInfo {
    pub id: IdentId,
    pub instance_method: IdMap<MethodRef>,
    pub class_method: IdMap<MethodRef>,
    pub superclass: Option<ClassRef>,
    pub included: Vec<PackedValue>,
    pub is_singleton: bool,
    pub object: PackedValue,
}

impl ClassInfo {
    pub fn new(id: IdentId, superclass: Option<ClassRef>) -> (r: ClassInfo)
        ensures
            r.id == id,
            r.superclass == superclass,
            r.instance_method.entries@.len() == 0,
            r.instance_method.wf(),
            r.class_method.entries@.len() == 0,
            r.class_method.wf(),
            r.included@.len() == 0,
            r.is_singleton == false,
            r.object == PackedValue::spec_nil(),
    {
        ClassInfo {
            id,
            instance_method: IdMap::new(),
            class_method: IdMap::new(),
            superclass,
            included: Vec::new(),
            is_singleton: false,
            object: PackedValue::nil(),
        }
    }
}

} // verus!
