//! Method records and the global method table.
//!
//! Method records are immutable once installed; redefinition installs a new
//! record under a fresh handle, so handles held by bound-method objects keep
//! referring to the record they were created from.

use vstd::prelude::*;
use crate::ident::IdentId;
use crate::lexer::Loc;

verus! {

/// Handle of a method record in the global method table.
#[derive(Clone, Copy, Debug, PartialEq, Eq, Hash, Structural)]
pub struct MethodRef(pub usize);

/// Handle of a compiled method body.
#[derive(Clone, Copy, Debug, PartialEq, Eq, Hash, Structural)]
pub struct ISeqRef(pub usize);

/// Slot index of a local variable.
#[derive(Clone, Copy, Debug, PartialEq, Eq, Hash, Structural)]
pub struct LvarId(pub usize);

/// Position inside a compiled body.
#[derive(Clone, Copy, Debug, PartialEq, Eq, Hash, Structural)]
pub struct ISeqPos(pub usize);

/// The local-variable table collected by the compiler for one method body.
#[derive(Debug, Clone)]
pub struct LvarCollector {
    pub table: Vec<IdentId>,
}

impl LvarCollector {
    pub fn new() -> (r: LvarCollector)
        ensures
            r.table@.len() == 0,
    {
        LvarCollector { table: Vec::new() }
    }
}

/// The compiled body is opaque to this core: an instruction byte sequence.
pub type ISeq = Vec<u8>;

/// Identifies one natively-implemented method; dispatch turns the id back
/// into the implementing function.
#[derive(Clone, Copy, Debug, PartialEq, Eq, Structural)]
pub enum BuiltinId {
    ArrayNew,
    ArrayPush,
    ArrayPop,
    ArrayLength,
    ArrayMul,
    ArrayAdd,
    ArraySub,
    ArrayMap,
    ArrayEach,
    ArrayInclude,
    ArrayReverse,
    ArrayReverseBang,
    ArrayTranspose,
    ClassNew,
    StringStartWith,
    StringToSym,
    StringGsub,
    ModConstants,
    ModConstGet,
    ModInstanceMethods,
    ModAttrAccessor,
    ModAttrReader,
    ModAttrWriter,
    ModModuleFunction,
    ModSingletonClass,
    ModInclude,
    ModIncludedModules,
    ModAncestors,
    ObjIsA,
    ObjMethod,
    ObjInteger,
}

/// One installed method.
#[derive(Debug, Clone)]
pub enum MethodInfo {
    RubyFunc { iseq: ISeqRef },
    AttrReader { id: IdentId },
    AttrWriter { id: IdentId },
    BuiltinFunc { name: String, func: BuiltinId },
}

/// A compiled method body with its parameter metadata and local-slot count.
#[derive(Debug, Clone)]
pub struct ISeqInfo {
    pub params: Vec<LvarId>,
    pub iseq: ISeq,
    pub lvar: LvarCollector,
    pub lvars: usize,
    pub iseq_sourcemap: Vec<(ISeqPos, Loc)>,
}

impl ISeqInfo {
    /// Each declared parameter occupies its own local slot.
    pub open spec fn wf(self) -> bool {
        &&& self.lvars == self.lvar.table@.len()
        &&& forall|j: int| 0 <= j < self.params@.len() ==> (#[trigger] self.params@[j]).0 < self.lvars
        &&& forall|j1: int, j2: int|
            0 <= j1 < j2 < self.params@.len() ==> self.params@[j1].0 != self.params@[j2].0
    }

    pub fn new(
        params: Vec<LvarId>,
        iseq: ISeq,
        lvar: LvarCollector,
        iseq_sourcemap: Vec<(ISeqPos, Loc)>,
    ) -> (r: ISeqInfo)
        requires
            forall|j: int| 0 <= j < params@.len() ==> (#[trigger] params@[j]).0 < lvar.table@.len(),
            forall|j1: int, j2: int| 0 <= j1 < j2 < params@.len() ==> params@[j1].0 != params@[j2].0,
        ensures
            r.wf(),
            r.params == params,
            r.iseq == iseq,
            r.lvars == lvar.table@.len(),
    {
        let lvars = lvar.table.len();
        ISeqInfo { params, iseq, lvar, lvars, iseq_sourcemap }
    }
}

/// The global, append-only method table.
#[derive(Debug, Clone)]
pub struct GlobalMethodTable {
    pub table: Vec<MethodInfo>,
    pub method_id: usize,
}

impl GlobalMethodTable {
    pub open spec fn wf(self) -> bool {
        self.method_id == self.table@.len()
    }

    pub open spec fn valid_ref(self, m: MethodRef) -> bool {
        m.0 < self.table@.len()
    }

    pub open spec fn spec_get(self, m: MethodRef) -> MethodInfo {
        self.table@[m.0 as int]
    }

    pub fn new() -> (r: GlobalMethodTable)
        ensures
            r.wf(),
            r.table@.len() == 0,
    {
        GlobalMethodTable { table: Vec::new(), method_id: 0 }
    }

    /// Installs a new record under a fresh handle; existing records are
    /// never touched, so previously issued handles keep their meaning.
    pub fn add_method(&mut self, info: MethodInfo) -> (r: MethodRef)
        requires
            old(self).wf(),
        ensures
            final(self).wf(),
            final(self).table@ == old(self).table@.push(info),
            r.0 == old(self).table@.len(),
            final(self).valid_ref(r),
            final(self).spec_get(r) == info,
            forall|m: MethodRef|
                old(self).valid_ref(m) ==> final(self).valid_ref(m) && final(self).spec_get(m)
                    == old(self).spec_get(m),
    {
        let new_method = MethodRef(self.method_id);
        self.table.push(info);
        self.method_id = self.table.len();
        new_method
    }

    pub fn get_method(&self, method: MethodRef) -> (r: &MethodInfo)
        requires
            self.valid_ref(method),
        ensures
            *r == self.spec_get(method),
    {
        &self.table[method.0]
    }

    pub fn get_mut_method(&mut self, method: MethodRef) -> (r: &mut MethodInfo)
        requires
            old(self).valid_ref(method),
        ensures
            *r == old(self).spec_get(method),
            final(self).table@ == old(self).table@.update(method.0 as int, *final(r)),
            final(self).method_id == old(self).method_id,
    {
        &mut self.table[method.0]
    }
}

} // verus!
