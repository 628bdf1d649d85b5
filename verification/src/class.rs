//! Class records and the generic object constructor.

use vstd::prelude::*;
use crate::globals::{same_builtins, Globals};
use crate::ident::IdentId;
use crate::method::{BuiltinId, MethodInfo, MethodRef};
use crate::object::{ClassInfo, ClassRef};
use crate::value::{decode_ref, PackedValue, VecArray};
use crate::vm::{args_ok, bind_params, grows, result_ok, Evaluator, VM, VMResult};

verus! {

impl ClassRef {
    /// Creates a class record without a superclass: the root of an
    /// ancestor chain.
    pub fn from_no_superclass(globals: &mut Globals, id: IdentId) -> (r: ClassRef)
        requires
            old(globals).wf0(),
        ensures
            final(globals).wf0(),
            crate::vm::grows(*old(globals), *final(globals)),
            final(globals).heap == old(globals).heap,
            final(globals).arrays == old(globals).arrays,
            final(globals).methods == old(globals).methods,
            final(globals).idents == old(globals).idents,
            final(globals).iseqs == old(globals).iseqs,
            same_builtins(*old(globals), *final(globals)),
            old(globals).builtins_ok() ==> final(globals).builtins_ok(),
            r.0 == old(globals).classes@.len(),
            r.0 < final(globals).classes@.len(),
            final(globals).classes@.len() == old(globals).classes@.len() + 1,
            forall|i: int|
                0 <= i < old(globals).classes@.len() ==> final(globals).classes@[i] == old(
                    globals,
                ).classes@[i],
            final(globals).classes@[r.0 as int].id == id,
            final(globals).classes@[r.0 as int].instance_method.entries@.len() == 0,
            final(globals).classes@[r.0 as int].class_method.entries@.len() == 0,
            final(globals).classes@[r.0 as int].included@.len() == 0,
            final(globals).classes@[r.0 as int].is_singleton == false,
            final(globals).classes@[r.0 as int].object == PackedValue::spec_nil(),
            final(globals).classes@[r.0 as int].superclass is None,
    {
        ClassRef::from(globals, id, None)
    }

    /// Creates a class record under the given superclass.  The superclass
    /// record always sits earlier in the arena, which keeps every
    /// superclass chain finite.
    pub fn from(globals: &mut Globals, id: IdentId, superclass: Option<ClassRef>) -> (r: ClassRef)
        requires
            old(globals).wf0(),
            match superclass {
                Some(s) => s.0 < old(globals).classes@.len(),
                None => true,
            },
        ensures
            final(globals).wf0(),
            crate::vm::grows(*old(globals), *final(globals)),
            final(globals).heap == old(globals).heap,
            final(globals).arrays == old(globals).arrays,
            final(globals).methods == old(globals).methods,
            final(globals).idents == old(globals).idents,
            final(globals).iseqs == old(globals).iseqs,
            same_builtins(*old(globals), *final(globals)),
            old(globals).builtins_ok() ==> final(globals).builtins_ok(),
            r.0 == old(globals).classes@.len(),
            r.0 < final(globals).classes@.len(),
            final(globals).classes@.len() == old(globals).classes@.len() + 1,
            forall|i: int|
                0 <= i < old(globals).classes@.len() ==> final(globals).classes@[i] == old(
                    globals,
                ).classes@[i],
            final(globals).classes@[r.0 as int].id == id,
            final(globals).classes@[r.0 as int].instance_method.entries@.len() == 0,
            final(globals).classes@[r.0 as int].class_method.entries@.len() == 0,
            final(globals).classes@[r.0 as int].included@.len() == 0,
            final(globals).classes@[r.0 as int].is_singleton == false,
            final(globals).classes@[r.0 as int].object == PackedValue::spec_nil(),
            final(globals).classes@[r.0 as int].superclass == superclass,
    {
        let r = ClassRef(globals.classes.len());
        globals.classes.push(ClassInfo::new(id, superclass));
        proof {
            let g1 = *old(globals);
            let g2 = *globals;
            assert(g2.classes@ =~= g1.classes@.push(g2.classes@[r.0 as int]));
            assert(g2.class_ok(r.0 as int));
            crate::globals::lemma_wf0_extend(g1, g2);
        }
        r
    }

    /// This class's own class-level method table entry for a name.
    pub fn get_class_method(&self, globals: &Globals, id: IdentId) -> (r: Option<MethodRef>)
        requires
            globals.wf0(),
            self.0 < globals.classes@.len(),
        ensures
            r == globals.classes@[self.0 as int].class_method.spec_get(id),
            r matches Some(m) ==> m.0 < globals.methods.table@.len(),
    {
        proof {
            assert(globals.class_ok(self.0 as int));
            if globals.classes@[self.0 as int].class_method.spec_get(id) is Some {
                crate::globals::lemma_entries_get_is_entry(
                    globals.classes@[self.0 as int].class_method.entries@,
                    id,
                );
            }
        }
        globals.classes[self.0].class_method.get(id)
    }

    /// This class's own instance-method table entry for a name, without
    /// walking ancestors.
    pub fn get_instance_method(&self, globals: &Globals, id: IdentId) -> (r: Option<MethodRef>)
        requires
            globals.wf0(),
            self.0 < globals.classes@.len(),
        ensures
            r == globals.classes@[self.0 as int].instance_method.spec_get(id),
            r matches Some(m) ==> m.0 < globals.methods.table@.len(),
    {
        proof {
            assert(globals.class_ok(self.0 as int));
            if globals.classes@[self.0 as int].instance_method.spec_get(id) is Some {
                crate::globals::lemma_entries_get_is_entry(
                    globals.classes@[self.0 as int].instance_method.entries@,
                    id,
                );
            }
        }
        globals.classes[self.0].instance_method.get(id)
    }
}

/// Installs the generic object constructor `new` on the Class class.
pub fn init_class(globals: &mut Globals) -> (r: ClassRef)
    requires
        old(globals).wf(),
        old(globals).idents.names@.len() + 4 < 0x8000_0000,
    ensures
        final(globals).wf(),
        final(globals).idents.names@.len() <= old(globals).idents.names@.len() + 2,
        final(globals).heap@.len() == old(globals).heap@.len(),
        crate::vm::grows(*old(globals), *final(globals)),
        same_builtins(*old(globals), *final(globals)),
        r.0 < final(globals).classes@.len(),
        final(globals).builtin_installed(
            old(globals).word_cref(old(globals).class_class.0),
            "new"@,
            BuiltinId::ClassNew,
        ),
{
    proof {
        reveal_strlit("new");
    }
    let class = globals.class_class.as_class(globals);
    globals.add_builtin_instance_method(class, "new", BuiltinId::ClassNew);
    class
}

/// `Class#new`: builds a plain instance of the receiver class and, when an
/// interpreted `initialize` method is defined directly on the class, runs
/// it on the new instance with the call's arguments.
pub fn class_new<E: Evaluator>(
    vm: &mut VM,
    evaluator: &mut E,
    receiver: PackedValue,
    args: VecArray,
    block: Option<MethodRef>,
) -> (r: VMResult)
    requires
        old(vm).wf(),
        old(vm).globals.word_ok(receiver.0),
        args.wf(),
        args_ok(old(vm).globals, args@),
    ensures
        final(vm).wf(),
        grows(old(vm).globals, final(vm).globals),
        same_builtins(old(vm).globals, final(vm).globals),
        result_ok(final(vm).globals, r),
        !(old(vm).globals.is_kind_class(receiver.0)) ==> r is Err,
        (old(vm).globals.is_kind_class(receiver.0) && old(vm).globals.spec_can_alloc() && old(
            vm,
        ).globals.classes@[old(vm).globals.word_cref(receiver.0).0 as int].instance_method.spec_get(
            old(vm).globals.initialize_id,
        ) is None) ==> (r matches Ok(v) && final(vm).globals.is_obj_word(v.0) && final(vm).globals.obj_at(v.0).class == receiver && final(vm).globals.obj_at(v.0).kind
            == crate::object::ObjKind::Ordinary && final(vm).globals.obj_at(
            v.0,
        ).var_table.entries@.len() == 0),
        (old(vm).globals.is_kind_class(receiver.0) && old(vm).globals.spec_can_alloc()) ==> (r
            matches Ok(v) ==> !crate::value::word_is_inline(v.0) && decode_ref(v.0) == old(
            vm,
        ).globals.heap@.len()),
{
    let cref = match receiver.is_class(&vm.globals) {
        Some(cref) => cref,
        None => {
            return Err(vm.error_unimplemented("Receiver must be a class!"));
        },
    };
    if !vm.globals.can_alloc() {
        return Err(vm.error_internal("the heap is full"));
    }
    let new_instance = PackedValue::ordinary_object(&mut vm.globals, receiver);
    proof {
        assert(vm.globals.class_ok(cref.0 as int));
    }
    let init_id = vm.globals.initialize_id;
    match cref.get_instance_method(&vm.globals, init_id) {
        Some(methodref) => {
            let iseq = match vm.globals.methods.get_method(methodref) {
                MethodInfo::RubyFunc { iseq } => *iseq,
                _ => {
                    return Err(vm.error_unimplemented("initialize must be interpreted"));
                },
            };
            proof {
                assert(vm.globals.methodinfo_ok(vm.globals.methods.table@[methodref.0 as int]));
                assert(vm.globals.iseqs@[iseq.0 as int].wf());
            }
            if args.len() > vm.globals.iseqs[iseq.0].params.len() {
                return Err(vm.error_argument("wrong number of arguments"));
            }
            let act = bind_params(&vm.globals, iseq, new_instance, &args, block);
            let ghost gm = vm.globals;
            match evaluator.eval(&mut vm.globals, iseq, act) {
                Ok(_) => {},
                Err(e) => {
                    return Err(e);
                },
            }
            proof {
                crate::vm::lemma_grows_word_ok(gm, vm.globals);
            }
            Ok(new_instance)
        },
        None => Ok(new_instance),
    }
}

} // verus!
