//! Method resolution and the calling convention.
//!
//! Resolution walks a receiver's class, its included modules in reverse
//! inclusion order, and its superclasses.  Dispatch packages arguments,
//! invokes native methods directly, reads and writes synthesized accessors,
//! and re-enters interpreted code through the caller-supplied evaluator.

use vstd::prelude::*;
use vstd::string::StringExecFns;
use crate::globals::{same_builtins, Globals};
use crate::ident::IdentId;
use crate::method::{ISeqRef, MethodInfo, MethodRef};
use crate::object::ClassRef;
use crate::value::{PackedValue, VecArray};

verus! {

/// A failure outcome, or a non-local control signal threaded through the
/// call convention.
#[derive(Debug, Clone, PartialEq)]
pub enum RubyError {
    Argument(String),
    Name(String),
    NoMethod(String),
    Type(String),
    Internal(String),
    Index(String),
    Unimplemented(String),
    Break(PackedValue),
}

pub type VMResult = Result<PackedValue, RubyError>;

/// Every value carried by an outcome is a live word.
pub open spec fn err_ok(g: Globals, e: RubyError) -> bool {
    match e {
        RubyError::Break(v) => g.word_ok(v.0),
        _ => true,
    }
}

pub open spec fn result_ok(g: Globals, r: VMResult) -> bool {
    match r {
        Ok(v) => g.word_ok(v.0),
        Err(e) => err_ok(g, e),
    }
}

/// All argument-package entries are live words.
pub open spec fn args_ok(g: Globals, args: Seq<PackedValue>) -> bool {
    forall|i: int| 0 <= i < args.len() ==> g.word_ok((#[trigger] args[i]).0)
}

/// A captured block, when present, is a live method handle.
pub open spec fn block_ok(g: Globals, b: Option<MethodRef>) -> bool {
    match b {
        Some(m) => m.0 < g.methods.table@.len(),
        None => true,
    }
}

/// The arenas only ever grow; an evaluator re-entry may mutate objects but
/// never removes them.
pub open spec fn grows(g1: Globals, g2: Globals) -> bool {
    &&& g1.heap@.len() <= g2.heap@.len()
    &&& g1.classes@.len() <= g2.classes@.len()
    &&& g1.arrays@.len() <= g2.arrays@.len()
    &&& g1.hashes@.len() <= g2.hashes@.len()
    &&& g1.regexps@.len() <= g2.regexps@.len()
    &&& g1.methodobjs@.len() <= g2.methodobjs@.len()
    &&& g1.iseqs@.len() <= g2.iseqs@.len()
    &&& g1.methods.table@.len() <= g2.methods.table@.len()
    &&& g1.idents.names@.len() <= g2.idents.names@.len()
}

pub proof fn lemma_grows_word_ok(g1: Globals, g2: Globals)
    requires
        grows(g1, g2),
    ensures
        forall|w: u64| g1.word_ok(w) ==> g2.word_ok(w),
{
}

/// The runtime record of one method or block invocation: the receiver, the
/// local-variable slots sized by the compiled body, and the captured block.
#[derive(Debug)]
pub struct Activation {
    pub self_value: PackedValue,
    pub lvars: Vec<PackedValue>,
    pub block: Option<MethodRef>,
}

/// The entry point through which native methods hand control back to
/// interpreted code: collection iterators invoke the passed block through
/// it, once per element, synchronously.  Implementations promise only to
/// keep the runtime well-formed and growing, and to return a live word.
pub trait Evaluator {
    fn eval(&mut self, globals: &mut Globals, iseq: ISeqRef, act: Activation) -> (r: VMResult)
        requires
            old(globals).wf(),
            iseq.0 < old(globals).iseqs@.len(),
        ensures
            final(globals).wf(),
            grows(*old(globals), *final(globals)),
            same_builtins(*old(globals), *final(globals)),
            result_ok(*final(globals), r),
    ;
}

/// The mutable machine state around the shared runtime: the arenas plus
/// the module-function toggle of the class body currently open.
pub struct VM {
    pub globals: Globals,
    pub module_function_flag: bool,
}

impl VM {
    pub open spec fn wf(self) -> bool {
        self.globals.wf()
    }

    /// A fresh machine over a fresh runtime.
    pub fn new() -> (r: VM)
        ensures
            r.wf(),
            r.module_function_flag == false,
            r.globals.spec_can_alloc(),
            r.globals.idents.valid_id(r.globals.initialize_id),
            r.globals.idents.names@.len() < 0x1000,
    {
        VM { globals: Globals::new(), module_function_flag: false }
    }

    pub fn error_argument(&self, msg: &str) -> (r: RubyError)
        ensures
            r matches RubyError::Argument(_),
    {
        RubyError::Argument(String::from_str(msg))
    }

    pub fn error_name(&self, msg: &str) -> (r: RubyError)
        ensures
            r matches RubyError::Name(_),
    {
        RubyError::Name(String::from_str(msg))
    }

    pub fn error_nomethod(&self, msg: &str) -> (r: RubyError)
        ensures
            r matches RubyError::NoMethod(_),
    {
        RubyError::NoMethod(String::from_str(msg))
    }

    pub fn error_type(&self, msg: &str) -> (r: RubyError)
        ensures
            r matches RubyError::Type(_),
    {
        RubyError::Type(String::from_str(msg))
    }

    pub fn error_internal(&self, msg: &str) -> (r: RubyError)
        ensures
            r matches RubyError::Internal(_),
    {
        RubyError::Internal(String::from_str(msg))
    }

    pub fn error_index(&self, msg: &str) -> (r: RubyError)
        ensures
            r matches RubyError::Index(_),
    {
        RubyError::Index(String::from_str(msg))
    }

    pub fn error_unimplemented(&self, msg: &str) -> (r: RubyError)
        ensures
            r matches RubyError::Unimplemented(_),
    {
        RubyError::Unimplemented(String::from_str(msg))
    }

    /// Sets or clears the module-function toggle of the open class body.
    pub fn set_module_function(&mut self, flag: bool)
        ensures
            final(self).globals == old(self).globals,
            final(self).module_function_flag == flag,
    {
        self.module_function_flag = flag;
    }

    /// Checks an argument count against an inclusive range; the check
    /// precedes any mutation, so a failed call leaves everything as it was.
    pub fn check_args_num(&self, len: usize, min: usize, max: usize) -> (r: Result<
        (),
        RubyError,
    >)
        ensures
            r is Ok <==> min <= len <= max,
            r is Err ==> r matches Err(RubyError::Argument(_)),
    {
        if min <= len && len <= max {
            Ok(())
        } else {
            Err(RubyError::Argument(String::from_str("wrong number of arguments")))
        }
    }
}

impl PackedValue {
    /// The integer this value holds, inline or boxed; anything else is an
    /// argument error carrying the caller's description.
    pub fn expect_fixnum(&self, vm: &VM, msg: &str) -> (r: Result<i64, RubyError>)
        requires
            vm.wf(),
            vm.globals.word_ok(self.0),
        ensures
            match vm.globals.spec_as_fixnum(self.0) {
                Some(n) => r == Ok::<i64, RubyError>(n),
                None => r matches Err(RubyError::Argument(_)),
            },
    {
        match self.as_fixnum(&vm.globals) {
            Some(n) => Ok(n),
            None => Err(vm.error_argument(msg)),
        }
    }
}

/// What one block-invocation outcome means for a native iteration: a
/// produced value continues the loop with that value; a break signal ends
/// the iteration cleanly, its value becoming the overall call's result;
/// any other failure ends the iteration with that failure, unchanged.
pub enum BlockStep {
    Next(PackedValue),
    Done(VMResult),
}

/// Maps a block invocation's outcome to its effect on the iteration.
pub fn classify_block_result(r: VMResult) -> (s: BlockStep)
    ensures
        match r {
            Ok(v) => s == BlockStep::Next(v),
            Err(e) => match e {
                RubyError::Break(v) => s == BlockStep::Done(Ok::<PackedValue, RubyError>(v)),
                _ => s == BlockStep::Done(Err::<PackedValue, RubyError>(e)),
            },
        },
{
    match r {
        Ok(v) => BlockStep::Next(v),
        Err(e) => {
            match e {
                RubyError::Break(v) => BlockStep::Done(Ok(v)),
                _ => BlockStep::Done(Err(e)),
            }
        },
    }
}

// ---------------------------------------------------------------------------
// Method resolution.
// ---------------------------------------------------------------------------

/// Looks a method up in the included modules of a class, most recently
/// included first: the module's own table only, never its ancestors.
pub open spec fn search_included(g: Globals, included: Seq<PackedValue>, id: IdentId) -> Option<
    MethodRef,
> decreases included.len() {
    if included.len() == 0 {
        None
    } else {
        let w = included.last();
        if g.is_class_word(w.0) && g.classes@[g.word_cref(w.0).0 as int].instance_method.spec_get(
            id,
        ) is Some {
            g.classes@[g.word_cref(w.0).0 as int].instance_method.spec_get(id)
        } else {
            search_included(g, included.drop_last(), id)
        }
    }
}

/// Ancestor-order lookup: the class's own table, then its included modules
/// in reverse inclusion order, then the superclass chain.
pub open spec fn spec_resolve(g: Globals, cref: ClassRef, id: IdentId) -> Option<MethodRef>
    decreases cref.0,
{
    if cref.0 >= g.classes@.len() {
        None
    } else {
        let c = g.classes@[cref.0 as int];
        if c.instance_method.spec_get(id) is Some {
            c.instance_method.spec_get(id)
        } else if search_included(g, c.included@, id) is Some {
            search_included(g, c.included@, id)
        } else {
            match c.superclass {
                Some(s) => if s.0 < cref.0 {
                    spec_resolve(g, s, id)
                } else {
                    None
                },
                None => None,
            }
        }
    }
}

/// The same walk over the class-level (singleton) method tables, used when
/// the receiver itself is a class or module value.
pub open spec fn spec_resolve_class_method(g: Globals, cref: ClassRef, id: IdentId) -> Option<
    MethodRef,
> decreases cref.0 {
    if cref.0 >= g.classes@.len() {
        None
    } else {
        let c = g.classes@[cref.0 as int];
        if c.class_method.spec_get(id) is Some {
            c.class_method.spec_get(id)
        } else {
            match c.superclass {
                Some(s) => if s.0 < cref.0 {
                    spec_resolve_class_method(g, s, id)
                } else {
                    None
                },
                None => None,
            }
        }
    }
}

proof fn lemma_search_included_none(g: Globals, included: Seq<PackedValue>, id: IdentId, n: int)
    requires
        0 <= n <= included.len(),
        forall|j: int|
            n <= j < included.len() ==> !(g.is_class_word((#[trigger] included[j]).0)
                && g.classes@[g.word_cref(included[j].0).0 as int].instance_method.spec_get(id)
                is Some),
    ensures
        search_included(g, included, id) == search_included(g, included.take(n), id),
    decreases included.len() - n,
{
    if n < included.len() {
        assert(included.take(included.len() as int) =~= included);
        assert(included.take(n + 1).drop_last() =~= included.take(n));
        assert(included.take(n + 1).last() == included[n]);
        lemma_search_included_none(g, included, id, n + 1);
        if n + 1 < included.len() {
        }
        assert(search_included(g, included.take(n + 1), id) == search_included(
            g,
            included.take(n),
            id,
        ));
    } else {
        assert(included.take(n) =~= included);
    }
}

/// Ancestor-order lookup over the class graph.  A method defined directly
/// on the class shadows the same name from an included module, which in
/// turn shadows the superclass chain; among included modules the most
/// recently included wins.
pub fn resolve_instance_method(globals: &Globals, cref: ClassRef, id: IdentId) -> (r: Option<
    MethodRef,
>)
    requires
        globals.wf0(),
        cref.0 < globals.classes@.len(),
    ensures
        r == spec_resolve(*globals, cref, id),
        r matches Some(m) ==> m.0 < globals.methods.table@.len(),
{
    let mut cur = cref;
    loop
        invariant
            globals.wf0(),
            cur.0 < globals.classes@.len(),
            spec_resolve(*globals, cref, id) == spec_resolve(*globals, cur, id),
        decreases cur.0,
    {
        proof {
            assert(globals.class_ok(cur.0 as int));
        }
        match globals.classes[cur.0].instance_method.get(id) {
            Some(m) => {
                proof {
                    crate::globals::lemma_entries_get_is_entry(
                        globals.classes@[cur.0 as int].instance_method.entries@,
                        id,
                    );
                }
                return Some(m);
            },
            None => {},
        }
        // included modules, most recently included first
        let inc_len = globals.classes[cur.0].included.len();
        let mut k = inc_len;
        while k > 0
            invariant
                globals.wf0(),
                cur.0 < globals.classes@.len(),
                spec_resolve(*globals, cref, id) == spec_resolve(*globals, cur, id),
                globals.classes@[cur.0 as int].instance_method.spec_get(id) is None,
                k <= inc_len,
                inc_len == globals.classes@[cur.0 as int].included@.len(),
                forall|j: int|
                    k <= j < inc_len ==> !(globals.is_class_word(
                        (#[trigger] globals.classes@[cur.0 as int].included@[j]).0,
                    ) && globals.classes@[globals.word_cref(
                        globals.classes@[cur.0 as int].included@[j].0,
                    ).0 as int].instance_method.spec_get(id) is Some),
            decreases k,
        {
            k = k - 1;
            proof {
                assert(globals.class_ok(cur.0 as int));
            }
            let w = globals.classes[cur.0].included[k];
            proof {
                assert(globals.word_ok(w.0));
            }
            match w.as_module(globals) {
                Some(mcref) => {
                    proof {
                        assert(globals.class_ok(mcref.0 as int));
                    }
                    match globals.classes[mcref.0].instance_method.get(id) {
                        Some(m) => {
                            proof {
                                crate::globals::lemma_entries_get_is_entry(
                                    globals.classes@[mcref.0 as int].instance_method.entries@,
                                    id,
                                );
                                lemma_search_included_none(
                                    *globals,
                                    globals.classes@[cur.0 as int].included@,
                                    id,
                                    k + 1,
                                );
                                assert(globals.classes@[cur.0 as int].included@.take(k + 1).last()
                                    == globals.classes@[cur.0 as int].included@[k as int]);
                                assert(globals.classes@[cur.0 as int].included@.take(k + 1)
                                    =~= globals.classes@[cur.0 as int].included@.take(k + 1));
                            }
                            return Some(m);
                        },
                        None => {},
                    }
                },
                None => {},
            }
        }
        proof {
            lemma_search_included_none(
                *globals,
                globals.classes@[cur.0 as int].included@,
                id,
                0,
            );
            assert(globals.classes@[cur.0 as int].included@.take(0)
                =~= Seq::<PackedValue>::empty());
        }
        match globals.classes[cur.0].superclass {
            Some(s) => {
                proof {
                    assert(s.0 < cur.0);
                }
                cur = s;
            },
            None => {
                return None;
            },
        }
    }
}

/// The same walk over the class-level method tables.
pub fn resolve_class_method(globals: &Globals, cref: ClassRef, id: IdentId) -> (r: Option<
    MethodRef,
>)
    requires
        globals.wf0(),
        cref.0 < globals.classes@.len(),
    ensures
        r == spec_resolve_class_method(*globals, cref, id),
        r matches Some(m) ==> m.0 < globals.methods.table@.len(),
{
    let mut cur = cref;
    loop
        invariant
            globals.wf0(),
            cur.0 < globals.classes@.len(),
            spec_resolve_class_method(*globals, cref, id) == spec_resolve_class_method(
                *globals,
                cur,
                id,
            ),
        decreases cur.0,
    {
        proof {
            assert(globals.class_ok(cur.0 as int));
        }
        match globals.classes[cur.0].class_method.get(id) {
            Some(m) => {
                proof {
                    crate::globals::lemma_entries_get_is_entry(
                        globals.classes@[cur.0 as int].class_method.entries@,
                        id,
                    );
                }
                return Some(m);
            },
            None => {},
        }
        match globals.classes[cur.0].superclass {
            Some(s) => {
                cur = s;
            },
            None => {
                return None;
            },
        }
    }
}

// ---------------------------------------------------------------------------
// Parameter binding.
// ---------------------------------------------------------------------------

/// Binds positional arguments into fresh local-variable slots, per the
/// compiled body's parameter list: each declared parameter takes the
/// argument at its position, a missing positional argument binds to nil,
/// excess arguments are ignored.
pub fn bind_params(globals: &Globals, iseq: ISeqRef, receiver: PackedValue, args: &VecArray, block:
    Option<MethodRef>) -> (act: Activation)
    requires
        globals.wf0(),
        iseq.0 < globals.iseqs@.len(),
        args.wf(),
    ensures
        act.self_value == receiver,
        act.block == block,
        act.lvars@.len() == globals.iseqs@[iseq.0 as int].lvars,
        forall|j: int|
            0 <= j < globals.iseqs@[iseq.0 as int].params@.len() && j < args@.len()
                ==> act.lvars@[(#[trigger] globals.iseqs@[iseq.0 as int].params@[j]).0 as int]
                == args@[j],
        forall|s: int|
            0 <= s < act.lvars@.len() && (forall|j: int|
                0 <= j < globals.iseqs@[iseq.0 as int].params@.len() && j < args@.len()
                    ==> (#[trigger] globals.iseqs@[iseq.0 as int].params@[j]).0 != s)
                ==> act.lvars@[s] == PackedValue::spec_nil(),
{
    let nslots = globals.iseqs[iseq.0].lvars;
    proof {
        assert(globals.iseqs@[iseq.0 as int].wf());
    }
    let mut slots: Vec<PackedValue> = vec![PackedValue::nil(); nslots];
    let np = globals.iseqs[iseq.0].params.len();
    let na = args.len();
    let mut j: usize = 0;
    while j < np
        invariant
            globals.wf0(),
            iseq.0 < globals.iseqs@.len(),
            args.wf(),
            np == globals.iseqs@[iseq.0 as int].params@.len(),
            na == args@.len(),
            j <= np,
            slots@.len() == globals.iseqs@[iseq.0 as int].lvars,
            forall|j1: int|
                0 <= j1 < j && j1 < na ==> slots@[(
                #[trigger] globals.iseqs@[iseq.0 as int].params@[j1]).0 as int] == args@[j1],
            forall|s: int|
                0 <= s < slots@.len() && (forall|j1: int|
                    0 <= j1 < np && j1 < na ==> (
                    #[trigger] globals.iseqs@[iseq.0 as int].params@[j1]).0 != s) ==> slots@[s]
                    == PackedValue::spec_nil(),
        decreases np - j,
    {
        proof {
            assert(globals.iseqs@[iseq.0 as int].wf());
        }
        let slot = globals.iseqs[iseq.0].params[j].0;
        if j < na {
            slots[slot] = args.get(j);
        }
        j += 1;
    }
    Activation { self_value: receiver, lvars: slots, block }
}

// ---------------------------------------------------------------------------
// Dispatch.
// ---------------------------------------------------------------------------

/// What a method record tells dispatch to do, extracted from the record so
/// that the table borrow ends before the action runs.
enum MethodAction {
    Iseq(ISeqRef),
    Read(IdentId),
    Write(IdentId),
    Builtin(crate::method::BuiltinId),
}

/// Turns one native-method identifier back into its implementation.
pub fn invoke_builtin<E: Evaluator>(
    vm: &mut VM,
    evaluator: &mut E,
    fid: crate::method::BuiltinId,
    receiver: PackedValue,
    args: VecArray,
    block: Option<MethodRef>,
) -> (r: VMResult)
    requires
        old(vm).wf(),
        old(vm).globals.word_ok(receiver.0),
        args.wf(),
        args_ok(old(vm).globals, args@),
        block_ok(old(vm).globals, block),
    ensures
        final(vm).wf(),
        grows(old(vm).globals, final(vm).globals),
        same_builtins(old(vm).globals, final(vm).globals),
        result_ok(final(vm).globals, r),
{
    match fid {
        crate::method::BuiltinId::ArrayNew => crate::array::array_new(vm, receiver, args, block),
        crate::method::BuiltinId::ArrayPush => crate::array::array_push(vm, receiver, args, block),
        crate::method::BuiltinId::ArrayPop => crate::array::array_pop(vm, receiver, args, block),
        crate::method::BuiltinId::ArrayLength => crate::array::array_length(
            vm,
            receiver,
            args,
            block,
        ),
        crate::method::BuiltinId::ArrayMul => crate::array::array_mul(vm, receiver, args, block),
        crate::method::BuiltinId::ArrayAdd => crate::array::array_add(vm, receiver, args, block),
        crate::method::BuiltinId::ArraySub => crate::array::array_sub(vm, receiver, args, block),
        crate::method::BuiltinId::ArrayMap => crate::array::array_map(
            vm,
            evaluator,
            receiver,
            args,
            block,
        ),
        crate::method::BuiltinId::ArrayEach => crate::array::array_each(
            vm,
            evaluator,
            receiver,
            args,
            block,
        ),
        crate::method::BuiltinId::ArrayInclude => crate::array::array_include(
            vm,
            receiver,
            args,
            block,
        ),
        crate::method::BuiltinId::ArrayReverse => crate::array::array_reverse(
            vm,
            receiver,
            args,
            block,
        ),
        crate::method::BuiltinId::ArrayReverseBang => crate::array::array_reverse_(
            vm,
            receiver,
            args,
            block,
        ),
        crate::method::BuiltinId::ArrayTranspose => crate::array::array_transpose(
            vm,
            receiver,
            args,
            block,
        ),
        crate::method::BuiltinId::ClassNew => crate::class::class_new(
            vm,
            evaluator,
            receiver,
            args,
            block,
        ),
        crate::method::BuiltinId::StringStartWith => crate::string::string_start_with(
            vm,
            receiver,
            args,
            block,
        ),
        crate::method::BuiltinId::StringToSym => crate::string::string_to_sym(
            vm,
            receiver,
            args,
            block,
        ),
        crate::method::BuiltinId::StringGsub => crate::string::string_gsub(
            vm,
            receiver,
            args,
            block,
        ),
        crate::method::BuiltinId::ModConstants => crate::reflect::constants(
            vm,
            receiver,
            args,
            block,
        ),
        crate::method::BuiltinId::ModConstGet => crate::reflect::const_get(
            vm,
            receiver,
            args,
            block,
        ),
        crate::method::BuiltinId::ModInstanceMethods => crate::reflect::instance_methods(
            vm,
            receiver,
            args,
            block,
        ),
        crate::method::BuiltinId::ModAttrAccessor => crate::reflect::attr_accessor(
            vm,
            receiver,
            args,
            block,
        ),
        crate::method::BuiltinId::ModAttrReader => crate::reflect::attr_reader(
            vm,
            receiver,
            args,
            block,
        ),
        crate::method::BuiltinId::ModAttrWriter => crate::reflect::attr_writer(
            vm,
            receiver,
            args,
            block,
        ),
        crate::method::BuiltinId::ModModuleFunction => crate::reflect::module_function(
            vm,
            receiver,
            args,
            block,
        ),
        crate::method::BuiltinId::ModSingletonClass => crate::reflect::singleton_class(
            vm,
            receiver,
            args,
            block,
        ),
        crate::method::BuiltinId::ModInclude => crate::reflect::include_module(
            vm,
            receiver,
            args,
            block,
        ),
        crate::method::BuiltinId::ModIncludedModules => crate::reflect::included_modules(
            vm,
            receiver,
            args,
            block,
        ),
        crate::method::BuiltinId::ModAncestors => crate::reflect::ancestors(
            vm,
            receiver,
            args,
            block,
        ),
        crate::method::BuiltinId::ObjIsA => crate::builtin::builtin_isa(vm, receiver, args, block),
        crate::method::BuiltinId::ObjMethod => crate::builtin::builtin_method(
            vm,
            receiver,
            args,
            block,
        ),
        crate::method::BuiltinId::ObjInteger => crate::builtin::builtin_integer(
            vm,
            receiver,
            args,
            block,
        ),
    }
}

/// Invokes one resolved method record on a receiver: a native method runs
/// directly; an interpreted method gets a fresh activation with parameters
/// bound from the package and control handed to the evaluator; a
/// synthesized reader reads the backing instance variable, an unset one
/// reading as nil; a synthesized writer writes it and returns the assigned
/// value.
pub fn invoke_method<E: Evaluator>(
    vm: &mut VM,
    evaluator: &mut E,
    methodref: MethodRef,
    receiver: PackedValue,
    args: VecArray,
    block: Option<MethodRef>,
) -> (r: VMResult)
    requires
        old(vm).wf(),
        methodref.0 < old(vm).globals.methods.table@.len(),
        old(vm).globals.word_ok(receiver.0),
        args.wf(),
        args_ok(old(vm).globals, args@),
        block_ok(old(vm).globals, block),
    ensures
        final(vm).wf(),
        grows(old(vm).globals, final(vm).globals),
        same_builtins(old(vm).globals, final(vm).globals),
        result_ok(final(vm).globals, r),
        (old(vm).globals.methods.spec_get(methodref) matches MethodInfo::RubyFunc { iseq }
            && args@.len() > old(vm).globals.iseqs@[iseq.0 as int].params@.len()) ==> (r
            matches Err(RubyError::Argument(_)) && final(vm).globals == old(vm).globals),
        old(vm).globals.methods.spec_get(methodref) matches MethodInfo::AttrReader { id } ==> {
            &&& final(vm).globals == old(vm).globals
            &&& if old(vm).globals.is_obj_word(receiver.0) {
                r == Ok::<PackedValue, RubyError>(
                    match old(vm).globals.obj_at(receiver.0).var_table.spec_get(id) {
                        Some(v) => v,
                        None => PackedValue::spec_nil(),
                    },
                )
            } else {
                r matches Err(RubyError::Type(_))
            }
        },
        old(vm).globals.methods.spec_get(methodref) matches MethodInfo::AttrWriter { id } ==> {
            if old(vm).globals.is_obj_word(receiver.0) && args@.len() >= 1 {
                &&& r == Ok::<PackedValue, RubyError>(args@[0])
                &&& final(vm).globals.is_obj_word(receiver.0)
                &&& final(vm).globals.obj_at(receiver.0).var_table.spec_get(id) == Some(args@[0])
                &&& forall|k: IdentId|
                    k != id ==> final(vm).globals.obj_at(receiver.0).var_table.spec_get(k) == old(vm).globals.obj_at(receiver.0).var_table.spec_get(k)
            } else {
                r is Err && final(vm).globals == old(vm).globals
            }
        },
{
    let action = match vm.globals.methods.get_method(methodref) {
        MethodInfo::RubyFunc { iseq } => {
            proof {
                assert(vm.globals.methodinfo_ok(vm.globals.methods.table@[methodref.0 as int]));
            }
            MethodAction::Iseq(*iseq)
        },
        MethodInfo::AttrReader { id } => MethodAction::Read(*id),
        MethodInfo::AttrWriter { id } => MethodAction::Write(*id),
        MethodInfo::BuiltinFunc { func, .. } => MethodAction::Builtin(*func),
    };
    match action {
        MethodAction::Iseq(iseq) => {
            proof {
                assert(vm.globals.iseqs@[iseq.0 as int].wf());
            }
            // excess positional arguments are a reported arity error;
            // missing ones bind to nil
            if args.len() > vm.globals.iseqs[iseq.0].params.len() {
                return Err(vm.error_argument("wrong number of arguments"));
            }
            let act = bind_params(&vm.globals, iseq, receiver, &args, block);
            evaluator.eval(&mut vm.globals, iseq, act)
        },
        MethodAction::Read(id) => {
            match receiver.is_object(&vm.globals) {
                Some(_) => {
                    match receiver.get_var(&vm.globals, id) {
                        Some(v) => Ok(v),
                        None => Ok(PackedValue::nil()),
                    }
                },
                None => Err(vm.error_type("Receiver must be an object.")),
            }
        },
        MethodAction::Write(id) => {
            if args.len() < 1 {
                return Err(vm.error_argument("wrong number of arguments"));
            }
            match receiver.is_object(&vm.globals) {
                Some(_) => {
                    proof {
                        assert(vm.globals.methodinfo_ok(
                            vm.globals.methods.table@[methodref.0 as int],
                        ));
                    }
                    let val = args.get(0);
                    receiver.set_var(&mut vm.globals, id, val);
                    Ok(val)
                },
                None => Err(vm.error_type("Receiver must be an object.")),
            }
        },
        MethodAction::Builtin(fid) => invoke_builtin(vm, evaluator, fid, receiver, args, block),
    }
}

/// The method record a message send activates: the class-level chain when
/// the receiver is itself a class or module value and that chain defines
/// the name, otherwise the ancestor-order walk from the receiver's class.
pub open spec fn spec_send_resolve(g: Globals, w: u64, id: IdentId) -> Option<MethodRef> {
    if g.is_class_word(w) && spec_resolve_class_method(g, g.word_cref(w), id) is Some {
        spec_resolve_class_method(g, g.word_cref(w), id)
    } else {
        let cw = g.spec_class_object_of(w);
        if g.is_class_word(cw.0) {
            spec_resolve(g, g.word_cref(cw.0), id)
        } else {
            None
        }
    }
}

/// Sends a message: resolves the name against the receiver's class (for a
/// class or module receiver, against its class-level chain first) and
/// invokes what resolution finds; an unresolved message is a no-method
/// error, raised before anything is mutated.  A message resolved to a
/// synthesized reader reads the backing instance variable, an unset one
/// reading as nil.
pub fn send<E: Evaluator>(
    vm: &mut VM,
    evaluator: &mut E,
    receiver: PackedValue,
    method_id: IdentId,
    args: VecArray,
    block: Option<MethodRef>,
) -> (r: VMResult)
    requires
        old(vm).wf(),
        old(vm).globals.word_ok(receiver.0),
        args.wf(),
        args_ok(old(vm).globals, args@),
        block_ok(old(vm).globals, block),
    ensures
        final(vm).wf(),
        grows(old(vm).globals, final(vm).globals),
        same_builtins(old(vm).globals, final(vm).globals),
        result_ok(final(vm).globals, r),
        spec_send_resolve(old(vm).globals, receiver.0, method_id) is None ==> (r matches Err(
            RubyError::NoMethod(_),
        ) && *final(vm) == *old(vm)),
        (spec_send_resolve(old(vm).globals, receiver.0, method_id) matches Some(m) && (old(
            vm,
        ).globals.methods.spec_get(m) matches MethodInfo::AttrReader { id } && old(
            vm,
        ).globals.is_obj_word(receiver.0))) ==> {
            let m = spec_send_resolve(old(vm).globals, receiver.0, method_id)->0;
            let id = old(vm).globals.methods.spec_get(m)->AttrReader_id;
            &&& final(vm).globals == old(vm).globals
            &&& r == Ok::<PackedValue, RubyError>(
                match old(vm).globals.obj_at(receiver.0).var_table.spec_get(id) {
                    Some(v) => v,
                    None => PackedValue::spec_nil(),
                },
            )
        },
{
    // a class or module receiver first resolves through the class-level
    // (singleton) method chain rooted at its own record
    match receiver.as_module(&vm.globals) {
        Some(cref) => {
            match resolve_class_method(&vm.globals, cref, method_id) {
                Some(mref) => {
                    return invoke_method(vm, evaluator, mref, receiver, args, block);
                },
                None => {},
            }
        },
        None => {},
    }
    let class_obj = receiver.get_class_object_for_method(&vm.globals);
    match class_obj.as_module(&vm.globals) {
        Some(cref) => {
            match resolve_instance_method(&vm.globals, cref, method_id) {
                Some(mref) => invoke_method(vm, evaluator, mref, receiver, args, block),
                None => Err(vm.error_nomethod("no method found.")),
            }
        },
        None => Err(vm.error_nomethod("receiver has no class.")),
    }
}

impl VM {
    /// Installs a method under a name on a class value, as a definition in
    /// an open class body does.  While the module-function toggle is set,
    /// the record is also installed in the class-level table, making it
    /// callable on the class itself.
    pub fn define_method(&mut self, class: PackedValue, id: IdentId, mref: MethodRef) -> (r:
        Result<(), RubyError>)
        requires
            old(self).wf(),
            old(self).globals.word_ok(class.0),
            mref.0 < old(self).globals.methods.table@.len(),
        ensures
            final(self).wf(),
            grows(old(self).globals, final(self).globals),
            same_builtins(old(self).globals, final(self).globals),
            final(self).module_function_flag == old(self).module_function_flag,
            !old(self).globals.is_class_word(class.0) ==> r is Err && *final(self) == *old(self),
            old(self).globals.is_class_word(class.0) ==> r is Ok && {
                let cref = old(self).globals.word_cref(class.0);
                &&& final(self).globals.classes@[cref.0 as int].instance_method.spec_get(id)
                    == Some(mref)
                &&& old(self).module_function_flag ==> final(self).globals.classes@[cref.0 as int].class_method.spec_get(id) == Some(mref)
                &&& !old(self).module_function_flag ==> final(self).globals.classes@[cref.0 as int].class_method == old(self).globals.classes@[cref.0 as int].class_method
            },
    {
        let cref = match class.as_module(&self.globals) {
            Some(cref) => cref,
            None => {
                return Err(self.error_type("Receiver must be a module or class."));
            },
        };
        self.globals.add_instance_method(cref, id, mref);
        if self.module_function_flag {
            self.globals.add_class_method(cref, id, mref);
        }
        Ok(())
    }
}

// ---------------------------------------------------------------------------
// Laws of resolution.
// ---------------------------------------------------------------------------

/// A method defined directly on a class shadows every definition of the
/// same name in its included modules and superclasses: resolution returns
/// the class's own entry whenever one exists.
pub proof fn lemma_own_method_shadows(g: Globals, cref: ClassRef, id: IdentId)
    requires
        cref.0 < g.classes@.len(),
        g.classes@[cref.0 as int].instance_method.spec_get(id) is Some,
    ensures
        spec_resolve(g, cref, id) == g.classes@[cref.0 as int].instance_method.spec_get(id),
{
}

/// A module included later shadows one included earlier: when the class's
/// own table misses and the most recently included entry is a module whose
/// own table defines the name, resolution returns that module's entry,
/// whatever earlier included modules or superclasses define.
pub proof fn lemma_last_included_shadows(g: Globals, cref: ClassRef, id: IdentId)
    requires
        cref.0 < g.classes@.len(),
        g.classes@[cref.0 as int].instance_method.spec_get(id) is None,
        g.classes@[cref.0 as int].included@.len() > 0,
        g.is_class_word(g.classes@[cref.0 as int].included@.last().0),
        g.classes@[g.word_cref(
            g.classes@[cref.0 as int].included@.last().0,
        ).0 as int].instance_method.spec_get(id) is Some,
    ensures
        spec_resolve(g, cref, id) == g.classes@[g.word_cref(
            g.classes@[cref.0 as int].included@.last().0,
        ).0 as int].instance_method.spec_get(id),
{
}

/// Installing a method record never changes what previously issued method
/// handles refer to: a bound-method object created before a redefinition
/// keeps denoting the record it was bound to, while resolution after the
/// redefinition returns the newly installed record.
pub proof fn lemma_bound_method_snapshot(
    g1: Globals,
    g2: Globals,
    bound: MethodRef,
    cref: ClassRef,
    id: IdentId,
    newref: MethodRef,
)
    requires
        bound.0 < g1.methods.table@.len(),
        g2.methods.table@ == g1.methods.table@.push(g2.methods.spec_get(newref)),
        newref.0 == g1.methods.table@.len(),
        cref.0 < g2.classes@.len(),
        g2.classes@[cref.0 as int].instance_method.spec_get(id) == Some(newref),
    ensures
        g2.methods.spec_get(bound) == g1.methods.spec_get(bound),
        spec_resolve(g2, cref, id) == Some(newref),
{
    lemma_own_method_shadows(g2, cref, id);
}

} // verus!
