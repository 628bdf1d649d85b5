//! The reflective operations of the Module class: accessor synthesis,
//! module inclusion, and the ancestor, constant and method listings.

use vstd::prelude::*;
use vstd::string::StringExecFns;
use crate::globals::{same_builtins, Globals};
use crate::ident::IdentId;
use crate::method::{BuiltinId, MethodInfo, MethodRef};
use crate::object::ClassRef;
use crate::value::{PackedValue, Value, VecArray};
use crate::vm::{args_ok, grows, result_ok, RubyError, VM, VMResult};

verus! {

/// Installs the reflective operations on the Module class.
pub fn init(globals: &mut Globals)
    requires
        old(globals).wf(),
        old(globals).idents.names@.len() + 20 < 0x8000_0000,
    ensures
        final(globals).wf(),
        final(globals).idents.names@.len() <= old(globals).idents.names@.len() + 14,
        final(globals).heap@.len() == old(globals).heap@.len(),
        crate::vm::grows(*old(globals), *final(globals)),
        same_builtins(*old(globals), *final(globals)),
        final(globals).builtin_installed(
            old(globals).word_cref(old(globals).module_class.0),
            "constants"@,
            BuiltinId::ModConstants,
        ),
        final(globals).builtin_installed(
            old(globals).word_cref(old(globals).module_class.0),
            "instance_methods"@,
            BuiltinId::ModInstanceMethods,
        ),
        final(globals).builtin_installed(
            old(globals).word_cref(old(globals).module_class.0),
            "attr_accessor"@,
            BuiltinId::ModAttrAccessor,
        ),
        final(globals).builtin_installed(
            old(globals).word_cref(old(globals).module_class.0),
            "attr"@,
            BuiltinId::ModAttrReader,
        ),
        final(globals).builtin_installed(
            old(globals).word_cref(old(globals).module_class.0),
            "attr_reader"@,
            BuiltinId::ModAttrReader,
        ),
        final(globals).builtin_installed(
            old(globals).word_cref(old(globals).module_class.0),
            "attr_writer"@,
            BuiltinId::ModAttrWriter,
        ),
        final(globals).builtin_installed(
            old(globals).word_cref(old(globals).module_class.0),
            "module_function"@,
            BuiltinId::ModModuleFunction,
        ),
        final(globals).builtin_installed(
            old(globals).word_cref(old(globals).module_class.0),
            "singleton_class?"@,
            BuiltinId::ModSingletonClass,
        ),
        final(globals).builtin_installed(
            old(globals).word_cref(old(globals).module_class.0),
            "const_get"@,
            BuiltinId::ModConstGet,
        ),
        final(globals).builtin_installed(
            old(globals).word_cref(old(globals).module_class.0),
            "include_module"@,
            BuiltinId::ModInclude,
        ),
        final(globals).builtin_installed(
            old(globals).word_cref(old(globals).module_class.0),
            "included_modules"@,
            BuiltinId::ModIncludedModules,
        ),
        final(globals).builtin_installed(
            old(globals).word_cref(old(globals).module_class.0),
            "ancestors"@,
            BuiltinId::ModAncestors,
        ),
{
    proof {
        reveal_strlit("constants");
        reveal_strlit("instance_methods");
        reveal_strlit("attr_accessor");
        reveal_strlit("attr");
        reveal_strlit("attr_reader");
        reveal_strlit("attr_writer");
        reveal_strlit("module_function");
        reveal_strlit("singleton_class?");
        reveal_strlit("const_get");
        reveal_strlit("include_module");
        reveal_strlit("included_modules");
        reveal_strlit("ancestors");
    }
    let class = globals.module_class.as_class(globals);
    globals.add_builtin_instance_method(class, "constants", BuiltinId::ModConstants);
    globals.add_builtin_instance_method(class, "instance_methods", BuiltinId::ModInstanceMethods);
    proof {
        assert("constants"@ != "instance_methods"@) by {
            assert("constants"@.len() == 9);
            assert("instance_methods"@.len() == 16);
        }
        assert(globals.builtin_installed(class, "constants"@, BuiltinId::ModConstants));
    }
    globals.add_builtin_instance_method(class, "attr_accessor", BuiltinId::ModAttrAccessor);
    proof {
        assert("constants"@ != "attr_accessor"@) by {
            assert("constants"@.len() == 9);
            assert("attr_accessor"@.len() == 13);
        }
        assert(globals.builtin_installed(class, "constants"@, BuiltinId::ModConstants));
        assert("instance_methods"@ != "attr_accessor"@) by {
            assert("instance_methods"@.len() == 16);
            assert("attr_accessor"@.len() == 13);
        }
        assert(globals.builtin_installed(class, "instance_methods"@, BuiltinId::ModInstanceMethods));
    }
    globals.add_builtin_instance_method(class, "attr", BuiltinId::ModAttrReader);
    proof {
        assert("constants"@ != "attr"@) by {
            assert("constants"@.len() == 9);
            assert("attr"@.len() == 4);
        }
        assert(globals.builtin_installed(class, "constants"@, BuiltinId::ModConstants));
        assert("instance_methods"@ != "attr"@) by {
            assert("instance_methods"@.len() == 16);
            assert("attr"@.len() == 4);
        }
        assert(globals.builtin_installed(class, "instance_methods"@, BuiltinId::ModInstanceMethods));
        assert("attr_accessor"@ != "attr"@) by {
            assert("attr_accessor"@.len() == 13);
            assert("attr"@.len() == 4);
        }
        assert(globals.builtin_installed(class, "attr_accessor"@, BuiltinId::ModAttrAccessor));
    }
    globals.add_builtin_instance_method(class, "attr_reader", BuiltinId::ModAttrReader);
    proof {
        assert("constants"@ != "attr_reader"@) by {
            assert("constants"@.len() == 9);
            assert("attr_reader"@.len() == 11);
        }
        assert(globals.builtin_installed(class, "constants"@, BuiltinId::ModConstants));
        assert("instance_methods"@ != "attr_reader"@) by {
            assert("instance_methods"@.len() == 16);
            assert("attr_reader"@.len() == 11);
        }
        assert(globals.builtin_installed(class, "instance_methods"@, BuiltinId::ModInstanceMethods));
        assert("attr_accessor"@ != "attr_reader"@) by {
            assert("attr_accessor"@.len() == 13);
            assert("attr_reader"@.len() == 11);
        }
        assert(globals.builtin_installed(class, "attr_accessor"@, BuiltinId::ModAttrAccessor));
        assert("attr"@ != "attr_reader"@) by {
            assert("attr"@.len() == 4);
            assert("attr_reader"@.len() == 11);
        }
        assert(globals.builtin_installed(class, "attr"@, BuiltinId::ModAttrReader));
    }
    globals.add_builtin_instance_method(class, "attr_writer", BuiltinId::ModAttrWriter);
    proof {
        assert("constants"@ != "attr_writer"@) by {
            assert("constants"@.len() == 9);
            assert("attr_writer"@.len() == 11);
        }
        assert(globals.builtin_installed(class, "constants"@, BuiltinId::ModConstants));
        assert("instance_methods"@ != "attr_writer"@) by {
            assert("instance_methods"@.len() == 16);
            assert("attr_writer"@.len() == 11);
        }
        assert(globals.builtin_installed(class, "instance_methods"@, BuiltinId::ModInstanceMethods));
        assert("attr_accessor"@ != "attr_writer"@) by {
            assert("attr_accessor"@.len() == 13);
            assert("attr_writer"@.len() == 11);
        }
        assert(globals.builtin_installed(class, "attr_accessor"@, BuiltinId::ModAttrAccessor));
        assert("attr"@ != "attr_writer"@) by {
            assert("attr"@.len() == 4);
            assert("attr_writer"@.len() == 11);
        }
        assert(globals.builtin_installed(class, "attr"@, BuiltinId::ModAttrReader));
        assert("attr_reader"@ != "attr_writer"@) by {
            assert("attr_reader"@[5] == 'r');
            assert("attr_writer"@[5] == 'w');
        }
        assert(globals.builtin_installed(class, "attr_reader"@, BuiltinId::ModAttrReader));
    }
    globals.add_builtin_instance_method(class, "module_function", BuiltinId::ModModuleFunction);
    proof {
        assert("constants"@ != "module_function"@) by {
            assert("constants"@.len() == 9);
            assert("module_function"@.len() == 15);
        }
        assert(globals.builtin_installed(class, "constants"@, BuiltinId::ModConstants));
        assert("instance_methods"@ != "module_function"@) by {
            assert("instance_methods"@.len() == 16);
            assert("module_function"@.len() == 15);
        }
        assert(globals.builtin_installed(class, "instance_methods"@, BuiltinId::ModInstanceMethods));
        assert("attr_accessor"@ != "module_function"@) by {
            assert("attr_accessor"@.len() == 13);
            assert("module_function"@.len() == 15);
        }
        assert(globals.builtin_installed(class, "attr_accessor"@, BuiltinId::ModAttrAccessor));
        assert("attr"@ != "module_function"@) by {
            assert("attr"@.len() == 4);
            assert("module_function"@.len() == 15);
        }
        assert(globals.builtin_installed(class, "attr"@, BuiltinId::ModAttrReader));
        assert("attr_reader"@ != "module_function"@) by {
            assert("attr_reader"@.len() == 11);
            assert("module_function"@.len() == 15);
        }
        assert(globals.builtin_installed(class, "attr_reader"@, BuiltinId::ModAttrReader));
        assert("attr_writer"@ != "module_function"@) by {
            assert("attr_writer"@.len() == 11);
            assert("module_function"@.len() == 15);
        }
        assert(globals.builtin_installed(class, "attr_writer"@, BuiltinId::ModAttrWriter));
    }
    globals.add_builtin_instance_method(class, "singleton_class?", BuiltinId::ModSingletonClass);
    proof {
        assert("constants"@ != "singleton_class?"@) by {
            assert("constants"@.len() == 9);
            assert("singleton_class?"@.len() == 16);
        }
        assert(globals.builtin_installed(class, "constants"@, BuiltinId::ModConstants));
        assert("instance_methods"@ != "singleton_class?"@) by {
            assert("instance_methods"@[0] == 'i');
            assert("singleton_class?"@[0] == 's');
        }
        assert(globals.builtin_installed(class, "instance_methods"@, BuiltinId::ModInstanceMethods));
        assert("attr_accessor"@ != "singleton_class?"@) by {
            assert("attr_accessor"@.len() == 13);
            assert("singleton_class?"@.len() == 16);
        }
        assert(globals.builtin_installed(class, "attr_accessor"@, BuiltinId::ModAttrAccessor));
        assert("attr"@ != "singleton_class?"@) by {
            assert("attr"@.len() == 4);
            assert("singleton_class?"@.len() == 16);
        }
        assert(globals.builtin_installed(class, "attr"@, BuiltinId::ModAttrReader));
        assert("attr_reader"@ != "singleton_class?"@) by {
            assert("attr_reader"@.len() == 11);
            assert("singleton_class?"@.len() == 16);
        }
        assert(globals.builtin_installed(class, "attr_reader"@, BuiltinId::ModAttrReader));
        assert("attr_writer"@ != "singleton_class?"@) by {
            assert("attr_writer"@.len() == 11);
            assert("singleton_class?"@.len() == 16);
        }
        assert(globals.builtin_installed(class, "attr_writer"@, BuiltinId::ModAttrWriter));
        assert("module_function"@ != "singleton_class?"@) by {
            assert("module_function"@.len() == 15);
            assert("singleton_class?"@.len() == 16);
        }
        assert(globals.builtin_installed(class, "module_function"@, BuiltinId::ModModuleFunction));
    }
    globals.add_builtin_instance_method(class, "const_get", BuiltinId::ModConstGet);
    proof {
        assert("constants"@ != "const_get"@) by {
            assert("constants"@[5] == 'a');
            assert("const_get"@[5] == '_');
        }
        assert(globals.builtin_installed(class, "constants"@, BuiltinId::ModConstants));
        assert("instance_methods"@ != "const_get"@) by {
            assert("instance_methods"@.len() == 16);
            assert("const_get"@.len() == 9);
        }
        assert(globals.builtin_installed(class, "instance_methods"@, BuiltinId::ModInstanceMethods));
        assert("attr_accessor"@ != "const_get"@) by {
            assert("attr_accessor"@.len() == 13);
            assert("const_get"@.len() == 9);
        }
        assert(globals.builtin_installed(class, "attr_accessor"@, BuiltinId::ModAttrAccessor));
        assert("attr"@ != "const_get"@) by {
            assert("attr"@.len() == 4);
            assert("const_get"@.len() == 9);
        }
        assert(globals.builtin_installed(class, "attr"@, BuiltinId::ModAttrReader));
        assert("attr_reader"@ != "const_get"@) by {
            assert("attr_reader"@.len() == 11);
            assert("const_get"@.len() == 9);
        }
        assert(globals.builtin_installed(class, "attr_reader"@, BuiltinId::ModAttrReader));
        assert("attr_writer"@ != "const_get"@) by {
            assert("attr_writer"@.len() == 11);
            assert("const_get"@.len() == 9);
        }
        assert(globals.builtin_installed(class, "attr_writer"@, BuiltinId::ModAttrWriter));
        assert("module_function"@ != "const_get"@) by {
            assert("module_function"@.len() == 15);
            assert("const_get"@.len() == 9);
        }
        assert(globals.builtin_installed(class, "module_function"@, BuiltinId::ModModuleFunction));
        assert("singleton_class?"@ != "const_get"@) by {
            assert("singleton_class?"@.len() == 16);
            assert("const_get"@.len() == 9);
        }
        assert(globals.builtin_installed(class, "singleton_class?"@, BuiltinId::ModSingletonClass));
    }
    globals.add_builtin_instance_method(class, "include_module", BuiltinId::ModInclude);
    proof {
        assert("constants"@ != "include_module"@) by {
            assert("constants"@.len() == 9);
            assert("include_module"@.len() == 14);
        }
        assert(globals.builtin_installed(class, "constants"@, BuiltinId::ModConstants));
        assert("instance_methods"@ != "include_module"@) by {
            assert("instance_methods"@.len() == 16);
            assert("include_module"@.len() == 14);
        }
        assert(globals.builtin_installed(class, "instance_methods"@, BuiltinId::ModInstanceMethods));
        assert("attr_accessor"@ != "include_module"@) by {
            assert("attr_accessor"@.len() == 13);
            assert("include_module"@.len() == 14);
        }
        assert(globals.builtin_installed(class, "attr_accessor"@, BuiltinId::ModAttrAccessor));
        assert("attr"@ != "include_module"@) by {
            assert("attr"@.len() == 4);
            assert("include_module"@.len() == 14);
        }
        assert(globals.builtin_installed(class, "attr"@, BuiltinId::ModAttrReader));
        assert("attr_reader"@ != "include_module"@) by {
            assert("attr_reader"@.len() == 11);
            assert("include_module"@.len() == 14);
        }
        assert(globals.builtin_installed(class, "attr_reader"@, BuiltinId::ModAttrReader));
        assert("attr_writer"@ != "include_module"@) by {
            assert("attr_writer"@.len() == 11);
            assert("include_module"@.len() == 14);
        }
        assert(globals.builtin_installed(class, "attr_writer"@, BuiltinId::ModAttrWriter));
        assert("module_function"@ != "include_module"@) by {
            assert("module_function"@.len() == 15);
            assert("include_module"@.len() == 14);
        }
        assert(globals.builtin_installed(class, "module_function"@, BuiltinId::ModModuleFunction));
        assert("singleton_class?"@ != "include_module"@) by {
            assert("singleton_class?"@.len() == 16);
            assert("include_module"@.len() == 14);
        }
        assert(globals.builtin_installed(class, "singleton_class?"@, BuiltinId::ModSingletonClass));
        assert("const_get"@ != "include_module"@) by {
            assert("const_get"@.len() == 9);
            assert("include_module"@.len() == 14);
        }
        assert(globals.builtin_installed(class, "const_get"@, BuiltinId::ModConstGet));
    }
    globals.add_builtin_instance_method(class, "included_modules", BuiltinId::ModIncludedModules);
    proof {
        assert("constants"@ != "included_modules"@) by {
            assert("constants"@.len() == 9);
            assert("included_modules"@.len() == 16);
        }
        assert(globals.builtin_installed(class, "constants"@, BuiltinId::ModConstants));
        assert("instance_methods"@ != "included_modules"@) by {
            assert("instance_methods"@[2] == 's');
            assert("included_modules"@[2] == 'c');
        }
        assert(globals.builtin_installed(class, "instance_methods"@, BuiltinId::ModInstanceMethods));
        assert("attr_accessor"@ != "included_modules"@) by {
            assert("attr_accessor"@.len() == 13);
            assert("included_modules"@.len() == 16);
        }
        assert(globals.builtin_installed(class, "attr_accessor"@, BuiltinId::ModAttrAccessor));
        assert("attr"@ != "included_modules"@) by {
            assert("attr"@.len() == 4);
            assert("included_modules"@.len() == 16);
        }
        assert(globals.builtin_installed(class, "attr"@, BuiltinId::ModAttrReader));
        assert("attr_reader"@ != "included_modules"@) by {
            assert("attr_reader"@.len() == 11);
            assert("included_modules"@.len() == 16);
        }
        assert(globals.builtin_installed(class, "attr_reader"@, BuiltinId::ModAttrReader));
        assert("attr_writer"@ != "included_modules"@) by {
            assert("attr_writer"@.len() == 11);
            assert("included_modules"@.len() == 16);
        }
        assert(globals.builtin_installed(class, "attr_writer"@, BuiltinId::ModAttrWriter));
        assert("module_function"@ != "included_modules"@) by {
            assert("module_function"@.len() == 15);
            assert("included_modules"@.len() == 16);
        }
        assert(globals.builtin_installed(class, "module_function"@, BuiltinId::ModModuleFunction));
        assert("singleton_class?"@ != "included_modules"@) by {
            assert("singleton_class?"@[0] == 's');
            assert("included_modules"@[0] == 'i');
        }
        assert(globals.builtin_installed(class, "singleton_class?"@, BuiltinId::ModSingletonClass));
        assert("const_get"@ != "included_modules"@) by {
            assert("const_get"@.len() == 9);
            assert("included_modules"@.len() == 16);
        }
        assert(globals.builtin_installed(class, "const_get"@, BuiltinId::ModConstGet));
        assert("include_module"@ != "included_modules"@) by {
            assert("include_module"@.len() == 14);
            assert("included_modules"@.len() == 16);
        }
        assert(globals.builtin_installed(class, "include_module"@, BuiltinId::ModInclude));
    }
    globals.add_builtin_instance_method(class, "ancestors", BuiltinId::ModAncestors);
    proof {
        assert("constants"@ != "ancestors"@) by {
            assert("constants"@[0] == 'c');
            assert("ancestors"@[0] == 'a');
        }
        assert(globals.builtin_installed(class, "constants"@, BuiltinId::ModConstants));
        assert("instance_methods"@ != "ancestors"@) by {
            assert("instance_methods"@.len() == 16);
            assert("ancestors"@.len() == 9);
        }
        assert(globals.builtin_installed(class, "instance_methods"@, BuiltinId::ModInstanceMethods));
        assert("attr_accessor"@ != "ancestors"@) by {
            assert("attr_accessor"@.len() == 13);
            assert("ancestors"@.len() == 9);
        }
        assert(globals.builtin_installed(class, "attr_accessor"@, BuiltinId::ModAttrAccessor));
        assert("attr"@ != "ancestors"@) by {
            assert("attr"@.len() == 4);
            assert("ancestors"@.len() == 9);
        }
        assert(globals.builtin_installed(class, "attr"@, BuiltinId::ModAttrReader));
        assert("attr_reader"@ != "ancestors"@) by {
            assert("attr_reader"@.len() == 11);
            assert("ancestors"@.len() == 9);
        }
        assert(globals.builtin_installed(class, "attr_reader"@, BuiltinId::ModAttrReader));
        assert("attr_writer"@ != "ancestors"@) by {
            assert("attr_writer"@.len() == 11);
            assert("ancestors"@.len() == 9);
        }
        assert(globals.builtin_installed(class, "attr_writer"@, BuiltinId::ModAttrWriter));
        assert("module_function"@ != "ancestors"@) by {
            assert("module_function"@.len() == 15);
            assert("ancestors"@.len() == 9);
        }
        assert(globals.builtin_installed(class, "module_function"@, BuiltinId::ModModuleFunction));
        assert("singleton_class?"@ != "ancestors"@) by {
            assert("singleton_class?"@.len() == 16);
            assert("ancestors"@.len() == 9);
        }
        assert(globals.builtin_installed(class, "singleton_class?"@, BuiltinId::ModSingletonClass));
        assert("const_get"@ != "ancestors"@) by {
            assert("const_get"@[0] == 'c');
            assert("ancestors"@[0] == 'a');
        }
        assert(globals.builtin_installed(class, "const_get"@, BuiltinId::ModConstGet));
        assert("include_module"@ != "ancestors"@) by {
            assert("include_module"@.len() == 14);
            assert("ancestors"@.len() == 9);
        }
        assert(globals.builtin_installed(class, "include_module"@, BuiltinId::ModInclude));
        assert("included_modules"@ != "ancestors"@) by {
            assert("included_modules"@.len() == 16);
            assert("ancestors"@.len() == 9);
        }
        assert(globals.builtin_installed(class, "included_modules"@, BuiltinId::ModIncludedModules));
    }
}

// ---------------------------------------------------------------------------
// Accessor synthesis.
// ---------------------------------------------------------------------------

/// A synthesized reader for the attribute `name` is installed on the
/// class: its table maps the attribute's identifier to a live record that
/// reads the instance variable named by prefixing the attribute with `@`.
pub open spec fn reader_installed(g: Globals, cref: ClassRef, id: IdentId, name: Seq<char>) -> bool {
    g.classes@[cref.0 as int].instance_method.spec_get(id) matches Some(m) && m.0
        < g.methods.table@.len() && (g.methods.spec_get(m) matches MethodInfo::AttrReader {
        id: iv,
    } && g.idents.valid_id(iv) && g.idents.spec_name(iv) == seq!['@'] + name)
}

/// A synthesized writer for the attribute `name` is installed on the
/// class: its table maps the identifier named `name=` to a live record
/// that writes the `@`-prefixed instance variable.
pub open spec fn writer_installed(g: Globals, cref: ClassRef, name: Seq<char>) -> bool {
    exists|w: IdentId|
        g.idents.valid_id(w) && g.idents.spec_name(w) == name + seq!['='] && (
        #[trigger] g.classes@[cref.0 as int].instance_method.spec_get(w) matches Some(m2) && m2.0
            < g.methods.table@.len() && (g.methods.spec_get(m2) matches MethodInfo::AttrWriter {
            id: iv2,
        } && g.idents.valid_id(iv2) && g.idents.spec_name(iv2) == seq!['@'] + name))
}

/// Both halves of an accessor for the attribute `name` are installed.
pub open spec fn accessor_installed(g: Globals, cref: ClassRef, id: IdentId, name: Seq<char>) -> bool {
    reader_installed(g, cref, id, name) && writer_installed(g, cref, name)
}

/// The identifier of the instance variable backing an attribute: the
/// attribute name prefixed with `@`.
pub fn get_instance_var(vm: &mut VM, id: IdentId) -> (r: Result<IdentId, RubyError>)
    requires
        old(vm).wf(),
        old(vm).globals.idents.valid_id(id),
    ensures
        final(vm).wf(),
        grows(old(vm).globals, final(vm).globals),
        same_builtins(old(vm).globals, final(vm).globals),
        final(vm).globals.heap == old(vm).globals.heap,
        final(vm).globals.classes == old(vm).globals.classes,
        final(vm).globals.methods == old(vm).globals.methods,
        final(vm).globals.idents.names@.len() <= old(vm).globals.idents.names@.len() + 1,
        old(vm).globals.idents.names@.len() < 0x8000_0000 - 1 ==> r is Ok,
        forall|j: int|
            0 <= j < old(vm).globals.idents.names@.len() ==> final(vm).globals.idents.names[j]@
                == old(vm).globals.idents.names[j]@,
        match r {
            Ok(iv) => final(vm).globals.idents.valid_id(iv) && final(vm).globals.idents.spec_name(
                iv,
            ) == seq!['@'] + old(vm).globals.idents.spec_name(id),
            Err(e) => crate::vm::err_ok(final(vm).globals, e),
        },
{
    if vm.globals.idents.names.len() >= 0x8000_0000 - 1 {
        return Err(vm.error_internal("the identifier table is full"));
    }
    let name = vm.globals.get_ident_name(id).clone();
    let mut prefixed = String::from_str("@");
    proof {
        reveal_strlit("@");
    }
    prefixed.append(name.as_str());
    let iv = vm.globals.get_ident_id(prefixed.as_str());
    proof {
        assert(seq!['@'] =~= "@"@);
    }
    Ok(iv)
}

/// Synthesizes a reader: a method record that reads the backing instance
/// variable, installed in the class's instance-method table under the
/// attribute name.
pub fn define_reader(vm: &mut VM, cref: ClassRef, id: IdentId) -> (r: Result<(), RubyError>)
    requires
        old(vm).wf(),
        cref.0 < old(vm).globals.classes@.len(),
        old(vm).globals.idents.valid_id(id),
    ensures
        final(vm).wf(),
        grows(old(vm).globals, final(vm).globals),
        same_builtins(old(vm).globals, final(vm).globals),
        final(vm).globals.heap == old(vm).globals.heap,
        final(vm).globals.idents.names@.len() <= old(vm).globals.idents.names@.len() + 1,
        old(vm).globals.idents.names@.len() < 0x8000_0000 - 1 ==> r is Ok,
        forall|j: int|
            0 <= j < old(vm).globals.idents.names@.len() ==> final(vm).globals.idents.names[j]@
                == old(vm).globals.idents.names[j]@,
        forall|m: MethodRef|
            m.0 < old(vm).globals.methods.table@.len() ==> final(vm).globals.methods.spec_get(m)
                == old(vm).globals.methods.spec_get(m),
        match r {
            Ok(_) => reader_installed(
                final(vm).globals,
                cref,
                id,
                old(vm).globals.idents.spec_name(id),
            ),
            Err(e) => crate::vm::err_ok(final(vm).globals, e),
        },
        forall|k: IdentId|
            k != id ==> final(vm).globals.classes@[cref.0 as int].instance_method.spec_get(k)
                == old(vm).globals.classes@[cref.0 as int].instance_method.spec_get(k),
        forall|i: int|
            0 <= i < old(vm).globals.classes@.len() && i != cref.0 ==> final(vm).globals.classes@[i]
                == old(vm).globals.classes@[i],
        final(vm).globals.classes@.len() == old(vm).globals.classes@.len(),
        final(vm).globals.classes@[cref.0 as int].class_method == old(vm).globals.classes@[cref.0 as int].class_method,
        final(vm).globals.classes@[cref.0 as int].superclass == old(vm).globals.classes@[cref.0 as int].superclass,
        final(vm).globals.classes@[cref.0 as int].included == old(vm).globals.classes@[cref.0 as int].included,
        r is Err ==> final(vm).globals.classes == old(vm).globals.classes,
{
    let iv = match get_instance_var(vm, id) {
        Ok(iv) => iv,
        Err(e) => {
            return Err(e);
        },
    };
    let mref = vm.globals.add_method(MethodInfo::AttrReader { id: iv });
    vm.globals.add_instance_method(cref, id, mref);
    Ok(())
}

/// Synthesizes a writer: a method record that writes the backing instance
/// variable, installed under the attribute name suffixed with `=`.
pub fn define_writer(vm: &mut VM, cref: ClassRef, id: IdentId) -> (r: Result<(), RubyError>)
    requires
        old(vm).wf(),
        cref.0 < old(vm).globals.classes@.len(),
        old(vm).globals.idents.valid_id(id),
    ensures
        final(vm).wf(),
        grows(old(vm).globals, final(vm).globals),
        same_builtins(old(vm).globals, final(vm).globals),
        final(vm).globals.heap == old(vm).globals.heap,
        final(vm).globals.idents.names@.len() <= old(vm).globals.idents.names@.len() + 2,
        old(vm).globals.idents.names@.len() < 0x8000_0000 - 2 ==> r is Ok,
        forall|j: int|
            0 <= j < old(vm).globals.idents.names@.len() ==> final(vm).globals.idents.names[j]@
                == old(vm).globals.idents.names[j]@,
        forall|m: MethodRef|
            m.0 < old(vm).globals.methods.table@.len() ==> final(vm).globals.methods.spec_get(m)
                == old(vm).globals.methods.spec_get(m),
        match r {
            Ok(_) => writer_installed(
                final(vm).globals,
                cref,
                old(vm).globals.idents.spec_name(id),
            ) && (forall|k: IdentId|
                final(vm).globals.idents.valid_id(k) && final(vm).globals.idents.spec_name(k)
                    != old(vm).globals.idents.spec_name(id) + seq!['='] ==> final(vm).globals.classes@[cref.0 as int].instance_method.spec_get(k) == old(vm).globals.classes@[cref.0 as int].instance_method.spec_get(k)),
            Err(e) => crate::vm::err_ok(final(vm).globals, e),
        },
        final(vm).globals.classes@.len() == old(vm).globals.classes@.len(),
        forall|i: int|
            0 <= i < old(vm).globals.classes@.len() && i != cref.0 ==> final(vm).globals.classes@[i]
                == old(vm).globals.classes@[i],
{
    let iv = match get_instance_var(vm, id) {
        Ok(iv) => iv,
        Err(e) => {
            return Err(e);
        },
    };
    if vm.globals.idents.names.len() >= 0x8000_0000 - 1 {
        return Err(vm.error_internal("the identifier table is full"));
    }
    let name = vm.globals.get_ident_name(id).clone();
    let mut assign_name = name;
    proof {
        reveal_strlit("=");
    }
    assign_name.append("=");
    let assign_id = vm.globals.get_ident_id(assign_name.as_str());
    let mref = vm.globals.add_method(MethodInfo::AttrWriter { id: iv });
    vm.globals.add_instance_method(cref, assign_id, mref);
    proof {
        assert(seq!['='] =~= "="@);
        assert(vm.globals.idents.spec_name(assign_id) == old(vm).globals.idents.spec_name(id)
            + seq!['=']);
        assert(vm.globals.classes@[cref.0 as int].instance_method.spec_get(assign_id) == Some(
            mref,
        ));
    }
    Ok(())
}

/// Synthesizes the reader and the writer of one attribute on a class: the
/// reader is installed under the attribute name and reads the instance
/// variable named by prefixing it with `@`; the writer is installed under
/// the name suffixed with `=` and writes the same variable.
pub fn define_accessor(vm: &mut VM, cref: ClassRef, id: IdentId) -> (r: Result<(), RubyError>)
    requires
        old(vm).wf(),
        cref.0 < old(vm).globals.classes@.len(),
        old(vm).globals.idents.valid_id(id),
    ensures
        final(vm).wf(),
        grows(old(vm).globals, final(vm).globals),
        same_builtins(old(vm).globals, final(vm).globals),
        final(vm).globals.heap == old(vm).globals.heap,
        final(vm).globals.idents.names@.len() <= old(vm).globals.idents.names@.len() + 3,
        old(vm).globals.idents.names@.len() < 0x8000_0000 - 3 ==> r is Ok,
        final(vm).globals.classes@.len() == old(vm).globals.classes@.len(),
        forall|i: int|
            0 <= i < old(vm).globals.classes@.len() && i != cref.0 ==> final(vm).globals.classes@[i]
                == old(vm).globals.classes@[i],
        forall|j: int|
            0 <= j < old(vm).globals.idents.names@.len() ==> final(vm).globals.idents.names[j]@
                == old(vm).globals.idents.names[j]@,
        forall|m: MethodRef|
            m.0 < old(vm).globals.methods.table@.len() ==> final(vm).globals.methods.spec_get(m)
                == old(vm).globals.methods.spec_get(m),
        match r {
            Ok(_) => accessor_installed(
                final(vm).globals,
                cref,
                id,
                old(vm).globals.idents.spec_name(id),
            ) && (forall|k: IdentId|
                final(vm).globals.idents.valid_id(k) && k != id && final(vm).globals.idents.spec_name(k) != old(vm).globals.idents.spec_name(id) + seq!['=']
                    ==> final(vm).globals.classes@[cref.0 as int].instance_method.spec_get(k)
                    == old(vm).globals.classes@[cref.0 as int].instance_method.spec_get(k)),
            Err(e) => crate::vm::err_ok(final(vm).globals, e),
        },
{
    let ghost name0 = old(vm).globals.idents.spec_name(id);
    match define_reader(vm, cref, id) {
        Ok(_) => {},
        Err(e) => {
            return Err(e);
        },
    }
    proof {
        assert(vm.globals.idents.spec_name(id) == name0);
    }
    let ghost mid = *vm;
    match define_writer(vm, cref, id) {
        Ok(_) => {},
        Err(e) => {
            return Err(e);
        },
    }
    proof {
        assert(vm.globals.idents.spec_name(id) == name0);
        // the reader's entry survives the writer's installation: the key
        // named by suffixing cannot be the attribute's own key
        assert(vm.globals.idents.valid_id(id));
        assert((name0 + seq!['=']).len() == name0.len() + 1);
        assert(vm.globals.classes@[cref.0 as int].instance_method.spec_get(id)
            == mid.globals.classes@[cref.0 as int].instance_method.spec_get(id));
        assert(reader_installed(vm.globals, cref, id, name0)) by {
            assert(reader_installed(mid.globals, cref, id, name0));
        }
        // and keys other than the attribute's own and its suffixed form
        // are untouched by either half
        assert forall|k: IdentId|
            vm.globals.idents.valid_id(k) && k != id && vm.globals.idents.spec_name(k) != name0
                + seq!['='] implies vm.globals.classes@[cref.0 as int].instance_method.spec_get(k)
            == old(vm).globals.classes@[cref.0 as int].instance_method.spec_get(k) by {
            assert(mid.globals.idents.spec_name(id) == name0);
            assert(vm.globals.classes@[cref.0 as int].instance_method.spec_get(k)
                == mid.globals.classes@[cref.0 as int].instance_method.spec_get(k));
        }
    }
    Ok(())
}

/// The attribute identifier a symbol argument denotes.
pub open spec fn arg_attr_id(args: Seq<PackedValue>, j: int) -> IdentId {
    IdentId(crate::value::decode_symbol(args[j].0))
}

/// Every argument is a symbol naming an interned identifier.
pub open spec fn args_all_symbols(g: Globals, args: Seq<PackedValue>) -> bool {
    forall|j: int|
        0 <= j < args.len() ==> crate::value::word_is_symbol((#[trigger] args[j]).0)
            && g.idents.valid_id(arg_attr_id(args, j))
}

/// `Module#attr_accessor`: synthesizes a reader and a writer for each
/// symbol argument; a non-symbol argument is a name error, raised before
/// any further synthesis, so pairs for the arguments before it are already
/// installed.  The stated law leaves out argument lists where one name is
/// another name suffixed with `=`, whose later pair overwrites part of the
/// earlier one.
pub fn attr_accessor(vm: &mut VM, self_val: PackedValue, args: VecArray, _block: Option<
    MethodRef,
>) -> (r: VMResult)
    requires
        old(vm).wf(),
        old(vm).globals.word_ok(self_val.0),
        args.wf(),
        args_ok(old(vm).globals, args@),
    ensures
        final(vm).wf(),
        grows(old(vm).globals, final(vm).globals),
        same_builtins(old(vm).globals, final(vm).globals),
        result_ok(final(vm).globals, r),
        r is Ok ==> r == Ok::<PackedValue, RubyError>(PackedValue::spec_nil()),
        !old(vm).globals.is_class_word(self_val.0) ==> r matches Err(RubyError::Type(_)),
        (old(vm).globals.is_class_word(self_val.0) && args_all_symbols(old(vm).globals, args@)
            && old(vm).globals.idents.names@.len() + 3 * args@.len() < 0x8000_0000 - 3 && (
        forall|j1: int, j2: int|
            0 <= j1 < args@.len() && 0 <= j2 < args@.len() ==> old(vm).globals.idents.spec_name(
                arg_attr_id(args@, j1),
            ) != old(vm).globals.idents.spec_name(arg_attr_id(args@, j2)) + seq!['='])) ==> (r
            == Ok::<PackedValue, RubyError>(PackedValue::spec_nil()) && forall|j: int|
            0 <= j < args@.len() ==> accessor_installed(
                final(vm).globals,
                old(vm).globals.word_cref(self_val.0),
                arg_attr_id(args@, j),
                old(vm).globals.idents.spec_name(#[trigger] arg_attr_id(args@, j)),
            )),
{
    let cref = match self_val.as_module(&vm.globals) {
        Some(cref) => cref,
        None => {
            return Err(vm.error_type("Receiver must be a module or class."));
        },
    };
    let ghost cond = old(vm).globals.is_class_word(self_val.0) && args_all_symbols(
        old(vm).globals,
        args@,
    ) && old(vm).globals.idents.names@.len() + 3 * args@.len() < 0x8000_0000 - 3 && (forall|
        j1: int,
        j2: int,
    |
        0 <= j1 < args@.len() && 0 <= j2 < args@.len() ==> old(vm).globals.idents.spec_name(
            arg_attr_id(args@, j1),
        ) != old(vm).globals.idents.spec_name(arg_attr_id(args@, j2)) + seq!['=']);
    let n = args.len();
    let mut i: usize = 0;
    while i < n
        invariant
            vm.wf(),
            grows(old(vm).globals, vm.globals),
            same_builtins(old(vm).globals, vm.globals),
            args.wf(),
            args_ok(old(vm).globals, args@),
            n == args@.len(),
            i <= n,
            cref.0 < vm.globals.classes@.len(),
            cref == old(vm).globals.word_cref(self_val.0),
            old(vm).globals.is_class_word(self_val.0),
            cond == (old(vm).globals.is_class_word(self_val.0) && args_all_symbols(
                old(vm).globals,
                args@,
            ) && old(vm).globals.idents.names@.len() + 3 * args@.len() < 0x8000_0000 - 3 && (
            forall|j1: int, j2: int|
                0 <= j1 < args@.len() && 0 <= j2 < args@.len() ==> old(vm).globals.idents.spec_name(arg_attr_id(args@, j1)) != old(vm).globals.idents.spec_name(arg_attr_id(args@, j2)) + seq!['='])),
            cond ==> vm.globals.idents.names@.len() <= old(vm).globals.idents.names@.len() + 3
                * i,
            forall|j: int|
                0 <= j < old(vm).globals.idents.names@.len() ==> vm.globals.idents.names[j]@
                    == old(vm).globals.idents.names[j]@,
            cond ==> forall|j: int|
                0 <= j < i ==> accessor_installed(
                    vm.globals,
                    cref,
                    arg_attr_id(args@, j),
                    old(vm).globals.idents.spec_name(#[trigger] arg_attr_id(args@, j)),
                ),
        decreases n - i,
    {
        let arg = args.get(i);
        if arg.is_packed_symbol() {
            let id = arg.as_packed_symbol();
            if id.0 as usize >= vm.globals.idents.names.len() {
                proof {
                    if cond {
                        assert(old(vm).globals.idents.valid_id(arg_attr_id(args@, i as int)));
                    }
                }
                return Err(vm.error_name("Unknown symbol."));
            }
            let ghost mid = *vm;
            proof {
                if cond {
                    assert(mid.globals.idents.names@.len() < 0x8000_0000 - 3);
                }
            }
            match define_accessor(vm, cref, id) {
                Ok(_) => {},
                Err(e) => {
                    proof {
                        assert(!cond);
                    }
                    return Err(e);
                },
            }
            proof {
                if cond {
                    assert forall|j: int| 0 <= j < i + 1 implies accessor_installed(
                        vm.globals,
                        cref,
                        arg_attr_id(args@, j),
                        old(vm).globals.idents.spec_name(#[trigger] arg_attr_id(args@, j)),
                    ) by {
                        let idj = arg_attr_id(args@, j);
                        let idi = arg_attr_id(args@, i as int);
                        let namej = old(vm).globals.idents.spec_name(idj);
                        let namei = old(vm).globals.idents.spec_name(idi);
                        assert(old(vm).globals.idents.valid_id(idj));
                        assert(old(vm).globals.idents.valid_id(idi));
                        assert(mid.globals.idents.spec_name(idi) == namei);
                        assert(mid.globals.idents.spec_name(idj) == namej);
                        if idj == idi {
                            assert(accessor_installed(vm.globals, cref, idi, namei));
                        } else {
                            // distinct valid identifiers bear distinct names
                            assert(namej != namei);
                            assert(namej != namei + seq!['=']);
                            assert(mid.globals.idents.valid_id(idj));
                            assert(vm.globals.idents.valid_id(idj));
                            assert(vm.globals.idents.spec_name(idj) == namej);
                            assert(accessor_installed(mid.globals, cref, idj, namej));
                            assert(reader_installed(vm.globals, cref, idj, namej)) by {
                                assert(vm.globals.classes@[cref.0 as int].instance_method.spec_get(
                                    idj,
                                ) == mid.globals.classes@[cref.0 as int].instance_method.spec_get(
                                    idj,
                                ));
                            }
                            assert(writer_installed(vm.globals, cref, namej)) by {
                                let w = choose|w: IdentId|
                                    mid.globals.idents.valid_id(w)
                                        && mid.globals.idents.spec_name(w) == namej + seq!['=']
                                        && (#[trigger] mid.globals.classes@[cref.0 as int].instance_method.spec_get(
                                        w,
                                    ) matches Some(m2) && m2.0 < mid.globals.methods.table@.len()
                                        && (mid.globals.methods.spec_get(m2)
                                        matches MethodInfo::AttrWriter { id: iv2 }
                                        && mid.globals.idents.valid_id(iv2)
                                        && mid.globals.idents.spec_name(iv2) == seq!['@'] + namej));
                                assert(vm.globals.idents.spec_name(w) == namej + seq!['=']);
                                assert(w != idi) by {
                                    assert((namej + seq!['=']).len() == namej.len() + 1);
                                    assert(namei != namej + seq!['=']);
                                }
                                assert(vm.globals.idents.spec_name(w) != namei + seq!['=']) by {
                                    assert((namej + seq!['=']).drop_last() =~= namej);
                                    assert((namei + seq!['=']).drop_last() =~= namei);
                                }
                                assert(vm.globals.classes@[cref.0 as int].instance_method.spec_get(
                                    w,
                                ) == mid.globals.classes@[cref.0 as int].instance_method.spec_get(
                                    w,
                                ));
                            }
                        }
                    }
                }
            }
        } else {
            proof {
                if cond {
                    assert(crate::value::word_is_symbol(args@[i as int].0));
                }
            }
            return Err(vm.error_name("Each of args for attr_accessor must be a symbol."));
        }
        i += 1;
    }
    Ok(PackedValue::nil())
}

/// `Module#attr_reader` (and `attr`): synthesizes a reader for each symbol
/// argument; a non-symbol argument is a name error, raised before any
/// further synthesis.
pub fn attr_reader(vm: &mut VM, self_val: PackedValue, args: VecArray, _block: Option<MethodRef>) -> (r:
    VMResult)
    requires
        old(vm).wf(),
        old(vm).globals.word_ok(self_val.0),
        args.wf(),
        args_ok(old(vm).globals, args@),
    ensures
        final(vm).wf(),
        grows(old(vm).globals, final(vm).globals),
        same_builtins(old(vm).globals, final(vm).globals),
        result_ok(final(vm).globals, r),
        r is Ok ==> r == Ok::<PackedValue, RubyError>(PackedValue::spec_nil()),
        !old(vm).globals.is_class_word(self_val.0) ==> r matches Err(RubyError::Type(_)),
        (old(vm).globals.is_class_word(self_val.0) && args_all_symbols(old(vm).globals, args@)
            && old(vm).globals.idents.names@.len() + args@.len() < 0x8000_0000 - 1) ==> (r == Ok::<
            PackedValue,
            RubyError,
        >(PackedValue::spec_nil()) && forall|j: int|
            0 <= j < args@.len() ==> reader_installed(
                final(vm).globals,
                old(vm).globals.word_cref(self_val.0),
                arg_attr_id(args@, j),
                old(vm).globals.idents.spec_name(#[trigger] arg_attr_id(args@, j)),
            )),
{
    let cref = match self_val.as_module(&vm.globals) {
        Some(cref) => cref,
        None => {
            return Err(vm.error_type("Receiver must be a module or class."));
        },
    };
    let ghost cond = old(vm).globals.is_class_word(self_val.0) && args_all_symbols(
        old(vm).globals,
        args@,
    ) && old(vm).globals.idents.names@.len() + args@.len() < 0x8000_0000 - 1;
    let n = args.len();
    let mut i: usize = 0;
    while i < n
        invariant
            vm.wf(),
            grows(old(vm).globals, vm.globals),
            same_builtins(old(vm).globals, vm.globals),
            args.wf(),
            args_ok(old(vm).globals, args@),
            n == args@.len(),
            i <= n,
            cref.0 < vm.globals.classes@.len(),
            cref == old(vm).globals.word_cref(self_val.0),
            old(vm).globals.is_class_word(self_val.0),
            cond == (old(vm).globals.is_class_word(self_val.0) && args_all_symbols(
                old(vm).globals,
                args@,
            ) && old(vm).globals.idents.names@.len() + args@.len() < 0x8000_0000 - 1),
            cond ==> vm.globals.idents.names@.len() <= old(vm).globals.idents.names@.len() + i,
            forall|j: int|
                0 <= j < old(vm).globals.idents.names@.len() ==> vm.globals.idents.names[j]@
                    == old(vm).globals.idents.names[j]@,
            cond ==> forall|j: int|
                0 <= j < i ==> reader_installed(
                    vm.globals,
                    cref,
                    arg_attr_id(args@, j),
                    old(vm).globals.idents.spec_name(#[trigger] arg_attr_id(args@, j)),
                ),
        decreases n - i,
    {
        let arg = args.get(i);
        if arg.is_packed_symbol() {
            let id = arg.as_packed_symbol();
            if id.0 as usize >= vm.globals.idents.names.len() {
                proof {
                    if cond {
                        assert(old(vm).globals.idents.valid_id(arg_attr_id(args@, i as int)));
                    }
                }
                return Err(vm.error_name("Unknown symbol."));
            }
            let ghost mid = *vm;
            proof {
                if cond {
                    assert(mid.globals.idents.names@.len() < 0x8000_0000 - 1);
                }
            }
            match define_reader(vm, cref, id) {
                Ok(_) => {},
                Err(e) => {
                    proof {
                        assert(!cond);
                    }
                    return Err(e);
                },
            }
            proof {
                if cond {
                    assert forall|j: int| 0 <= j < i + 1 implies reader_installed(
                        vm.globals,
                        cref,
                        arg_attr_id(args@, j),
                        old(vm).globals.idents.spec_name(#[trigger] arg_attr_id(args@, j)),
                    ) by {
                        let idj = arg_attr_id(args@, j);
                        let idi = arg_attr_id(args@, i as int);
                        let namej = old(vm).globals.idents.spec_name(idj);
                        assert(old(vm).globals.idents.valid_id(idj));
                        assert(mid.globals.idents.spec_name(idi) == old(
                            vm,
                        ).globals.idents.spec_name(idi));
                        if idj == idi {
                        } else {
                            assert(reader_installed(mid.globals, cref, idj, namej));
                            assert(vm.globals.classes@[cref.0 as int].instance_method.spec_get(idj)
                                == mid.globals.classes@[cref.0 as int].instance_method.spec_get(
                                idj,
                            ));
                        }
                    }
                }
            }
        } else {
            proof {
                if cond {
                    assert(crate::value::word_is_symbol(args@[i as int].0));
                }
            }
            return Err(vm.error_name("Each of args for attr_accessor must be a symbol."));
        }
        i += 1;
    }
    Ok(PackedValue::nil())
}

/// `Module#attr_writer`: synthesizes a writer for each symbol argument; a
/// non-symbol argument is a name error, raised before any further
/// synthesis.
pub fn attr_writer(vm: &mut VM, self_val: PackedValue, args: VecArray, _block: Option<MethodRef>) -> (r:
    VMResult)
    requires
        old(vm).wf(),
        old(vm).globals.word_ok(self_val.0),
        args.wf(),
        args_ok(old(vm).globals, args@),
    ensures
        final(vm).wf(),
        grows(old(vm).globals, final(vm).globals),
        same_builtins(old(vm).globals, final(vm).globals),
        result_ok(final(vm).globals, r),
        r is Ok ==> r == Ok::<PackedValue, RubyError>(PackedValue::spec_nil()),
        !old(vm).globals.is_class_word(self_val.0) ==> r matches Err(RubyError::Type(_)),
        (old(vm).globals.is_class_word(self_val.0) && args_all_symbols(old(vm).globals, args@)
            && old(vm).globals.idents.names@.len() + 2 * args@.len() < 0x8000_0000 - 2) ==> (r
            == Ok::<PackedValue, RubyError>(PackedValue::spec_nil()) && forall|j: int|
            0 <= j < args@.len() ==> writer_installed(
                final(vm).globals,
                old(vm).globals.word_cref(self_val.0),
                old(vm).globals.idents.spec_name(#[trigger] arg_attr_id(args@, j)),
            )),
{
    let cref = match self_val.as_module(&vm.globals) {
        Some(cref) => cref,
        None => {
            return Err(vm.error_type("Receiver must be a module or class."));
        },
    };
    let ghost cond = old(vm).globals.is_class_word(self_val.0) && args_all_symbols(
        old(vm).globals,
        args@,
    ) && old(vm).globals.idents.names@.len() + 2 * args@.len() < 0x8000_0000 - 2;
    let n = args.len();
    let mut i: usize = 0;
    while i < n
        invariant
            vm.wf(),
            grows(old(vm).globals, vm.globals),
            same_builtins(old(vm).globals, vm.globals),
            args.wf(),
            args_ok(old(vm).globals, args@),
            n == args@.len(),
            i <= n,
            cref.0 < vm.globals.classes@.len(),
            cref == old(vm).globals.word_cref(self_val.0),
            old(vm).globals.is_class_word(self_val.0),
            cond == (old(vm).globals.is_class_word(self_val.0) && args_all_symbols(
                old(vm).globals,
                args@,
            ) && old(vm).globals.idents.names@.len() + 2 * args@.len() < 0x8000_0000 - 2),
            cond ==> vm.globals.idents.names@.len() <= old(vm).globals.idents.names@.len() + 2
                * i,
            forall|j: int|
                0 <= j < old(vm).globals.idents.names@.len() ==> vm.globals.idents.names[j]@
                    == old(vm).globals.idents.names[j]@,
            cond ==> forall|j: int|
                0 <= j < i ==> writer_installed(
                    vm.globals,
                    cref,
                    old(vm).globals.idents.spec_name(#[trigger] arg_attr_id(args@, j)),
                ),
        decreases n - i,
    {
        let arg = args.get(i);
        if arg.is_packed_symbol() {
            let id = arg.as_packed_symbol();
            if id.0 as usize >= vm.globals.idents.names.len() {
                proof {
                    if cond {
                        assert(old(vm).globals.idents.valid_id(arg_attr_id(args@, i as int)));
                    }
                }
                return Err(vm.error_name("Unknown symbol."));
            }
            let ghost mid = *vm;
            proof {
                if cond {
                    assert(mid.globals.idents.names@.len() < 0x8000_0000 - 2);
                }
            }
            match define_writer(vm, cref, id) {
                Ok(_) => {},
                Err(e) => {
                    proof {
                        assert(!cond);
                    }
                    return Err(e);
                },
            }
            proof {
                if cond {
                    assert forall|j: int| 0 <= j < i + 1 implies writer_installed(
                        vm.globals,
                        cref,
                        old(vm).globals.idents.spec_name(#[trigger] arg_attr_id(args@, j)),
                    ) by {
                        let idj = arg_attr_id(args@, j);
                        let idi = arg_attr_id(args@, i as int);
                        let namej = old(vm).globals.idents.spec_name(idj);
                        let namei = old(vm).globals.idents.spec_name(idi);
                        assert(old(vm).globals.idents.valid_id(idj));
                        assert(old(vm).globals.idents.valid_id(idi));
                        assert(mid.globals.idents.spec_name(idi) == namei);
                        if namej == namei {
                            assert(writer_installed(vm.globals, cref, namei));
                        } else {
                            assert(writer_installed(mid.globals, cref, namej));
                            let w = choose|w: IdentId|
                                mid.globals.idents.valid_id(w) && mid.globals.idents.spec_name(w)
                                    == namej + seq!['='] && (
                                #[trigger] mid.globals.classes@[cref.0 as int].instance_method.spec_get(
                                    w,
                                ) matches Some(m2) && m2.0 < mid.globals.methods.table@.len() && (
                                mid.globals.methods.spec_get(m2) matches MethodInfo::AttrWriter {
                                    id: iv2,
                                } && mid.globals.idents.valid_id(iv2)
                                    && mid.globals.idents.spec_name(iv2) == seq!['@'] + namej));
                            assert(vm.globals.idents.valid_id(w));
                            assert(vm.globals.idents.spec_name(w) == namej + seq!['=']);
                            assert(vm.globals.idents.spec_name(w) != namei + seq!['=']) by {
                                assert((namej + seq!['=']).drop_last() =~= namej);
                                assert((namei + seq!['=']).drop_last() =~= namei);
                            }
                            assert(vm.globals.classes@[cref.0 as int].instance_method.spec_get(w)
                                == mid.globals.classes@[cref.0 as int].instance_method.spec_get(
                                w,
                            ));
                        }
                    }
                }
            }
        } else {
            proof {
                if cond {
                    assert(crate::value::word_is_symbol(args@[i as int].0));
                }
            }
            return Err(vm.error_name("Each of args for attr_accessor must be a symbol."));
        }
        i += 1;
    }
    Ok(PackedValue::nil())
}

/// `Module#module_function`: from here on, methods defined in the open
/// class body are installed as class-level methods as well.
pub fn module_function(vm: &mut VM, _self_val: PackedValue, args: VecArray, _block: Option<
    MethodRef,
>) -> (r: VMResult)
    requires
        old(vm).wf(),
        args.wf(),
    ensures
        final(vm).wf(),
        final(vm).globals == old(vm).globals,
        args@.len() == 0 ==> r == Ok::<PackedValue, RubyError>(PackedValue::spec_nil()) && final(vm).module_function_flag,
        args@.len() != 0 ==> (r matches Err(RubyError::Argument(_))) && *final(vm) == *old(vm),
        result_ok(final(vm).globals, r),
{
    match vm.check_args_num(args.len(), 0, 0) {
        Ok(_) => {},
        Err(e) => {
            return Err(e);
        },
    }
    vm.set_module_function(true);
    Ok(PackedValue::nil())
}

/// `Module#singleton_class?`: whether the receiver is a singleton class.
pub fn singleton_class(vm: &mut VM, self_val: PackedValue, _args: VecArray, _block: Option<
    MethodRef,
>) -> (r: VMResult)
    requires
        old(vm).wf(),
        old(vm).globals.word_ok(self_val.0),
    ensures
        final(vm).wf(),
        final(vm).globals == old(vm).globals,
        result_ok(final(vm).globals, r),
        old(vm).globals.is_class_word(self_val.0) ==> r == Ok::<PackedValue, RubyError>(
            if old(vm).globals.classes@[old(vm).globals.word_cref(
                self_val.0,
            ).0 as int].is_singleton {
                PackedValue::spec_true()
            } else {
                PackedValue::spec_false()
            },
        ),
        !old(vm).globals.is_class_word(self_val.0) ==> r is Err,
{
    let cref = match self_val.as_module(&vm.globals) {
        Some(cref) => cref,
        None => {
            return Err(vm.error_type("Receiver must be a module or class."));
        },
    };
    Ok(PackedValue::bool(vm.globals.classes[cref.0].is_singleton))
}

/// `Module#include_module`: appends the argument to the receiver's
/// included-module list; resolution and the ancestor walk see it before
/// previously included modules and before the superclass chain.
pub fn include_module(vm: &mut VM, self_val: PackedValue, args: VecArray, _block: Option<
    MethodRef,
>) -> (r: VMResult)
    requires
        old(vm).wf(),
        old(vm).globals.word_ok(self_val.0),
        args.wf(),
        args_ok(old(vm).globals, args@),
    ensures
        final(vm).wf(),
        grows(old(vm).globals, final(vm).globals),
        same_builtins(old(vm).globals, final(vm).globals),
        result_ok(final(vm).globals, r),
        (args@.len() == 1 && old(vm).globals.is_class_word(self_val.0)) ==> (r == Ok::<
            PackedValue,
            RubyError,
        >(PackedValue::spec_nil()) && final(vm).globals.classes@[old(vm).globals.word_cref(
            self_val.0,
        ).0 as int].included@ == old(vm).globals.classes@[old(vm).globals.word_cref(
            self_val.0,
        ).0 as int].included@.push(args@[0])),
        (args@.len() == 1 && old(vm).globals.is_class_word(self_val.0)) ==> {
            let c = old(vm).globals.word_cref(self_val.0).0 as int;
            &&& final(vm).globals.heap == old(vm).globals.heap
            &&& final(vm).globals.methods == old(vm).globals.methods
            &&& final(vm).globals.classes@.len() == old(vm).globals.classes@.len()
            &&& forall|i: int|
                0 <= i < old(vm).globals.classes@.len() && i != c ==> final(vm).globals.classes@[i]
                    == old(vm).globals.classes@[i]
            &&& final(vm).globals.classes@[c].instance_method == old(
                vm,
            ).globals.classes@[c].instance_method
            &&& final(vm).globals.classes@[c].class_method == old(
                vm,
            ).globals.classes@[c].class_method
            &&& final(vm).globals.classes@[c].superclass == old(vm).globals.classes@[c].superclass
        },
        !old(vm).globals.is_class_word(self_val.0) && args@.len() == 1 ==> r matches Err(
            RubyError::Type(_),
        ),
        args@.len() != 1 ==> r matches Err(RubyError::Argument(_)),
{
    match vm.check_args_num(args.len(), 1, 1) {
        Ok(_) => {},
        Err(e) => {
            return Err(e);
        },
    }
    let cref = match self_val.as_module(&vm.globals) {
        Some(cref) => cref,
        None => {
            return Err(vm.error_type("Receiver must be a module or class."));
        },
    };
    let module = args.get(0);
    vm.globals.append_included(cref, module);
    Ok(PackedValue::nil())
}

// ---------------------------------------------------------------------------
// Ancestor, constant and method listings.
// ---------------------------------------------------------------------------

/// The ancestor list of a class value: the class itself, then its included
/// modules most recently included first, then the ancestors of its
/// superclass, ending at the chain's root.
pub open spec fn spec_ancestors(g: Globals, w: u64) -> Seq<PackedValue>
    decreases g.word_cref(w).0,
{
    if !g.is_class_word(w) {
        Seq::empty()
    } else {
        let c = g.word_cref(w);
        let head = seq![PackedValue(w)] + g.classes@[c.0 as int].included@.reverse();
        match g.spec_superclass_val(c) {
            Some(sv) => if g.is_class_word(sv.0) && g.word_cref(sv.0).0 < c.0 {
                head + spec_ancestors(g, sv.0)
            } else {
                head
            },
            None => head,
        }
    }
}

/// The included modules visible from a class value, each class's list in
/// insertion order, across the whole superclass chain.
pub open spec fn spec_included_modules(g: Globals, w: u64) -> Seq<PackedValue>
    decreases g.word_cref(w).0,
{
    if !g.is_class_word(w) {
        Seq::empty()
    } else {
        let c = g.word_cref(w);
        let head = g.classes@[c.0 as int].included@;
        match g.spec_superclass_val(c) {
            Some(sv) => if g.is_class_word(sv.0) && g.word_cref(sv.0).0 < c.0 {
                head + spec_included_modules(g, sv.0)
            } else {
                head
            },
            None => head,
        }
    }
}

/// Pushes a class value and the reversed included-module list of its
/// record, then steps to the superclass value; used by both listing walks.
fn push_reversed_included(globals: &Globals, cref: ClassRef, out: &mut Vec<PackedValue>)
    requires
        globals.wf0(),
        cref.0 < globals.classes@.len(),
    ensures
        final(out)@ == old(out)@ + globals.classes@[cref.0 as int].included@.reverse(),
        forall|j: int|
            0 <= j < final(out)@.len() ==> globals.word_ok((#[trigger] final(out)@[j]).0) || old(
                out,
            )@.contains(final(out)@[j]),
{
    proof {
        assert(globals.class_ok(cref.0 as int));
    }
    let n = globals.classes[cref.0].included.len();
    let mut k: usize = 0;
    while k < n
        invariant
            globals.wf0(),
            cref.0 < globals.classes@.len(),
            n == globals.classes@[cref.0 as int].included@.len(),
            k <= n,
            out@ == old(out)@ + globals.classes@[cref.0 as int].included@.reverse().take(k as int),
        decreases n - k,
    {
        proof {
            assert(globals.class_ok(cref.0 as int));
            assert(globals.classes@[cref.0 as int].included@.reverse()[k as int]
                == globals.classes@[cref.0 as int].included@[n - 1 - k]);
        }
        out.push(globals.classes[cref.0].included[n - 1 - k]);
        proof {
            let rev = globals.classes@[cref.0 as int].included@.reverse();
            assert(old(out)@ + rev.take(k as int + 1) =~= (old(out)@ + rev.take(k as int)).push(
                rev[k as int],
            ));
        }
        k += 1;
    }
    proof {
        let rev = globals.classes@[cref.0 as int].included@.reverse();
        assert(rev.take(n as int) =~= rev);
        assert forall|j: int|
            0 <= j < out@.len() implies globals.word_ok((#[trigger] out@[j]).0) || old(
            out,
        )@.contains(out@[j]) by {
            if j >= old(out)@.len() {
                assert(globals.class_ok(cref.0 as int));
                assert(out@[j] == rev[j - old(out)@.len()]);
                assert(rev[j - old(out)@.len()] == globals.classes@[cref.0 as int].included@[
                    rev.len() - 1 - (j - old(out)@.len())]);
                assert(globals.word_ok(globals.classes@[cref.0 as int].included@[rev.len() - 1 - (j
                    - old(out)@.len())].0));
            } else {
                assert(out@[j] == old(out)@[j]);
                assert(old(out)@.contains(old(out)@[j]));
            }
        }
    }
}

/// Appends a class record's included-module list in insertion order.
fn push_included(globals: &Globals, cref: ClassRef, out: &mut Vec<PackedValue>)
    requires
        globals.wf0(),
        cref.0 < globals.classes@.len(),
    ensures
        final(out)@ == old(out)@ + globals.classes@[cref.0 as int].included@,
        forall|j: int|
            0 <= j < final(out)@.len() ==> globals.word_ok((#[trigger] final(out)@[j]).0) || old(
                out,
            )@.contains(final(out)@[j]),
{
    proof {
        assert(globals.class_ok(cref.0 as int));
    }
    let n = globals.classes[cref.0].included.len();
    let mut k: usize = 0;
    while k < n
        invariant
            globals.wf0(),
            cref.0 < globals.classes@.len(),
            n == globals.classes@[cref.0 as int].included@.len(),
            k <= n,
            out@ == old(out)@ + globals.classes@[cref.0 as int].included@.take(k as int),
        decreases n - k,
    {
        out.push(globals.classes[cref.0].included[k]);
        proof {
            let inc = globals.classes@[cref.0 as int].included@;
            assert(old(out)@ + inc.take(k as int + 1) =~= (old(out)@ + inc.take(k as int)).push(
                inc[k as int],
            ));
        }
        k += 1;
    }
    proof {
        let inc = globals.classes@[cref.0 as int].included@;
        assert(inc.take(n as int) =~= inc);
        assert forall|j: int|
            0 <= j < out@.len() implies globals.word_ok((#[trigger] out@[j]).0) || old(
            out,
        )@.contains(out@[j]) by {
            if j >= old(out)@.len() {
                assert(globals.class_ok(cref.0 as int));
                assert(out@[j] == inc[j - old(out)@.len()]);
            } else {
                assert(out@[j] == old(out)@[j]);
                assert(old(out)@.contains(old(out)@[j]));
            }
        }
    }
}

/// The superclass value to continue a walk with, when the chain goes on.
/// Its class record always sits strictly earlier in the arena.
pub(crate) fn walk_superclass(globals: &Globals, cur: PackedValue) -> (r: Option<PackedValue>)
    requires
        globals.wf0(),
        globals.is_class_word(cur.0),
    ensures
        r == globals.spec_superclass_val(globals.word_cref(cur.0)),
        r matches Some(sv) ==> globals.is_class_word(sv.0) && globals.word_ok(sv.0)
            && globals.word_cref(sv.0).0 < globals.word_cref(cur.0).0,
{
    proof {
        assert(globals.word_ok(cur.0));
    }
    let cref = cur.as_class(globals);
    proof {
        assert(globals.class_ok(cref.0 as int));
    }
    match globals.classes[cref.0].superclass {
        Some(s) => {
            proof {
                assert(globals.class_ok(s.0 as int));
            }
            let w = globals.classes[s.0].object;
            if w.is_nil() {
                None
            } else {
                proof {
                    assert(globals.is_class_word(w.0));
                    assert(globals.word_cref(w.0) == s);
                }
                Some(w)
            }
        },
        None => None,
    }
}

/// Collects the ancestor list of a class value.
fn ancestors_walk(globals: &Globals, start: PackedValue) -> (r: Vec<PackedValue>)
    requires
        globals.wf0(),
        globals.word_ok(start.0),
        globals.is_class_word(start.0),
    ensures
        r@ == spec_ancestors(*globals, start.0),
        forall|j: int| 0 <= j < r@.len() ==> globals.word_ok((#[trigger] r@[j]).0),
{
    let mut ary: Vec<PackedValue> = Vec::new();
    let mut cur = start;
    loop
        invariant_except_break
            globals.is_class_word(cur.0),
            globals.word_ok(cur.0),
            spec_ancestors(*globals, start.0) == ary@ + spec_ancestors(*globals, cur.0),
        invariant
            globals.wf0(),
            forall|j: int| 0 <= j < ary@.len() ==> globals.word_ok((#[trigger] ary@[j]).0),
        ensures
            ary@ == spec_ancestors(*globals, start.0),
        decreases globals.word_cref(cur.0).0,
    {
        let ghost before = ary@;
        let cref = cur.as_class(globals);
        ary.push(cur);
        push_reversed_included(globals, cref, &mut ary);
        proof {
            assert(ary@ =~= before + (seq![cur]
                + globals.classes@[cref.0 as int].included@.reverse()));
            assert forall|j: int| 0 <= j < ary@.len() implies globals.word_ok(
                (#[trigger] ary@[j]).0,
            ) by {
                if before.contains(ary@[j]) {
                    let w = choose|w: int| 0 <= w < before.len() && before[w] == ary@[j];
                    assert(globals.word_ok(before[w].0));
                }
            }
        }
        match walk_superclass(globals, cur) {
            Some(sv) => {
                proof {
                    assert(spec_ancestors(*globals, cur.0) == (seq![cur]
                        + globals.classes@[cref.0 as int].included@.reverse()) + spec_ancestors(
                        *globals,
                        sv.0,
                    ));
                    assert(ary@ + spec_ancestors(*globals, sv.0) =~= before + spec_ancestors(
                        *globals,
                        cur.0,
                    ));
                }
                cur = sv;
            },
            None => {
                proof {
                    assert(spec_ancestors(*globals, cur.0) == seq![cur]
                        + globals.classes@[cref.0 as int].included@.reverse());
                    assert(ary@ =~= before + spec_ancestors(*globals, cur.0));
                    assert(ary@ =~= spec_ancestors(*globals, start.0));
                }
                break ;
            },
        }
    }
    proof {
        assert(ary@ =~= spec_ancestors(*globals, start.0));
    }
    ary
}

/// `Module#ancestors`: the receiver, its included modules most recently
/// included first, then the superclass chain with its modules, in walk
/// order.  A receiver that is not a class or module value is a reportable
/// internal error, never a silent stop.
pub fn ancestors(vm: &mut VM, self_val: PackedValue, args: VecArray, _block: Option<MethodRef>) -> (r:
    VMResult)
    requires
        old(vm).wf(),
        old(vm).globals.word_ok(self_val.0),
        args.wf(),
    ensures
        final(vm).wf(),
        grows(old(vm).globals, final(vm).globals),
        same_builtins(old(vm).globals, final(vm).globals),
        result_ok(final(vm).globals, r),
        (args@.len() == 0 && old(vm).globals.is_class_word(self_val.0) && old(vm).globals.spec_can_alloc()) ==> (r matches Ok(v) && (final(vm).globals.spec_as_array(v.0)
            matches Some(na) && final(vm).globals.arrays@[na.0 as int].elements@ == spec_ancestors(
            old(vm).globals,
            self_val.0,
        ))),
        args@.len() == 0 && !old(vm).globals.is_class_word(self_val.0) ==> r matches Err(
            RubyError::Internal(_),
        ),
        args@.len() != 0 ==> r matches Err(RubyError::Argument(_)),
{
    match vm.check_args_num(args.len(), 0, 0) {
        Ok(_) => {},
        Err(e) => {
            return Err(e);
        },
    }
    match self_val.as_module(&vm.globals) {
        Some(_) => {},
        None => {
            return Err(vm.error_internal("Illegal value in superclass chain."));
        },
    }
    if !vm.globals.can_alloc() {
        return Err(vm.error_internal("the heap is full"));
    }
    let ary = ancestors_walk(&vm.globals, self_val);
    let res = PackedValue::array_from(&mut vm.globals, ary);
    Ok(res)
}

/// Collects the included modules visible from a class value.
fn included_modules_walk(globals: &Globals, start: PackedValue) -> (r: Vec<PackedValue>)
    requires
        globals.wf0(),
        globals.word_ok(start.0),
        globals.is_class_word(start.0),
    ensures
        r@ == spec_included_modules(*globals, start.0),
        forall|j: int| 0 <= j < r@.len() ==> globals.word_ok((#[trigger] r@[j]).0),
{
    let mut ary: Vec<PackedValue> = Vec::new();
    let mut cur = start;
    loop
        invariant_except_break
            globals.is_class_word(cur.0),
            globals.word_ok(cur.0),
            spec_included_modules(*globals, start.0) == ary@ + spec_included_modules(
                *globals,
                cur.0,
            ),
        invariant
            globals.wf0(),
            forall|j: int| 0 <= j < ary@.len() ==> globals.word_ok((#[trigger] ary@[j]).0),
        ensures
            ary@ == spec_included_modules(*globals, start.0),
        decreases globals.word_cref(cur.0).0,
    {
        let ghost before = ary@;
        let cref = cur.as_class(globals);
        push_included(globals, cref, &mut ary);
        proof {
            assert(ary@ =~= before + globals.classes@[cref.0 as int].included@);
            assert forall|j: int| 0 <= j < ary@.len() implies globals.word_ok(
                (#[trigger] ary@[j]).0,
            ) by {
                if before.contains(ary@[j]) {
                    let w = choose|w: int| 0 <= w < before.len() && before[w] == ary@[j];
                    assert(globals.word_ok(before[w].0));
                }
            }
        }
        match walk_superclass(globals, cur) {
            Some(sv) => {
                proof {
                    assert(ary@ + spec_included_modules(*globals, sv.0) =~= before
                        + spec_included_modules(*globals, cur.0));
                }
                cur = sv;
            },
            None => {
                proof {
                    assert(ary@ =~= before + spec_included_modules(*globals, cur.0));
                    assert(ary@ =~= spec_included_modules(*globals, start.0));
                }
                break ;
            },
        }
    }
    proof {
        assert(ary@ =~= spec_included_modules(*globals, start.0));
    }
    ary
}

/// `Module#included_modules`: the included modules of the receiver and of
/// its superclasses, each class's list in insertion order.
pub fn included_modules(vm: &mut VM, self_val: PackedValue, args: VecArray, _block: Option<
    MethodRef,
>) -> (r: VMResult)
    requires
        old(vm).wf(),
        old(vm).globals.word_ok(self_val.0),
        args.wf(),
    ensures
        final(vm).wf(),
        grows(old(vm).globals, final(vm).globals),
        same_builtins(old(vm).globals, final(vm).globals),
        result_ok(final(vm).globals, r),
        (args@.len() == 0 && old(vm).globals.is_class_word(self_val.0) && old(vm).globals.spec_can_alloc()) ==> (r matches Ok(v) && (final(vm).globals.spec_as_array(v.0)
            matches Some(na) && final(vm).globals.arrays@[na.0 as int].elements@
            == spec_included_modules(old(vm).globals, self_val.0))),
        args@.len() == 0 && !old(vm).globals.is_class_word(self_val.0) ==> r matches Err(
            RubyError::Internal(_),
        ),
        args@.len() != 0 ==> r matches Err(RubyError::Argument(_)),
{
    match vm.check_args_num(args.len(), 0, 0) {
        Ok(_) => {},
        Err(e) => {
            return Err(e);
        },
    }
    match self_val.as_module(&vm.globals) {
        Some(_) => {},
        None => {
            return Err(vm.error_internal("Illegal value in superclass chain."));
        },
    }
    if !vm.globals.can_alloc() {
        return Err(vm.error_internal("the heap is full"));
    }
    let ary = included_modules_walk(&vm.globals, self_val);
    let res = PackedValue::array_from(&mut vm.globals, ary);
    Ok(res)
}

// ---------------------------------------------------------------------------
// Constants.
// ---------------------------------------------------------------------------

/// Whether a name begins with an uppercase letter, which is what makes a
/// binding a constant.
pub open spec fn starts_upper(s: Seq<char>) -> bool {
    s.len() > 0 && 65 <= s[0] as u32 <= 90
}

/// The constant-named keys of a class object's variable table, as symbol
/// values, in table order.
pub open spec fn const_syms_of(g: Globals, w: u64) -> Seq<PackedValue> {
    g.obj_at(w).var_table.spec_keys().filter(
        |id: IdentId| id.0 < g.idents.names@.len() && starts_upper(g.idents.names@[id.0 as int]@),
    ).map(|i: int, id: IdentId| PackedValue(crate::value::encode_symbol(id.0)))
}

/// The constants visible from a class value: its own uppercase-named
/// bindings and its ancestors' along the superclass chain, up to and
/// excluding the universal base class.
pub open spec fn spec_constants(g: Globals, w: u64) -> Seq<PackedValue>
    decreases g.word_cref(w).0,
{
    if !g.is_class_word(w) {
        Seq::empty()
    } else {
        let c = g.word_cref(w);
        let own = const_syms_of(g, w);
        match g.spec_superclass_val(c) {
            Some(sv) => if sv == g.object {
                own
            } else if g.is_class_word(sv.0) && g.word_cref(sv.0).0 < c.0 {
                own + spec_constants(g, sv.0)
            } else {
                own
            },
            None => own,
        }
    }
}

/// Collects the constant-named keys of one class object, as symbols.
fn const_syms(globals: &Globals, w: PackedValue) -> (r: Vec<PackedValue>)
    requires
        globals.wf0(),
        globals.word_ok(w.0),
        globals.is_class_word(w.0),
    ensures
        r@ == const_syms_of(*globals, w.0),
        forall|j: int| 0 <= j < r@.len() ==> globals.word_ok((#[trigger] r@[j]).0),
{
    let oref = w.as_object(globals);
    let keys: Vec<IdentId> = match &globals.heap[oref.0] {
        Value::Object(o) => o.var_table.keys(),
        _ => {
            proof {
                assert(false);
            }
            Vec::new()
        },
    };
    let ghost pred = |id: IdentId|
        id.0 < globals.idents.names@.len() && starts_upper(globals.idents.names@[id.0 as int]@);
    let ghost tosym = |i: int, id: IdentId| PackedValue(crate::value::encode_symbol(id.0));
    let n = keys.len();
    let mut out: Vec<PackedValue> = Vec::new();
    let mut i: usize = 0;
    while i < n
        invariant
            globals.wf0(),
            n == keys@.len(),
            i <= n,
            pred == (|id: IdentId|
                id.0 < globals.idents.names@.len() && starts_upper(
                    globals.idents.names@[id.0 as int]@,
                )),
            tosym == (|i2: int, id: IdentId| PackedValue(crate::value::encode_symbol(id.0))),
            out@ == keys@.take(i as int).filter(pred).map(tosym),
            forall|j: int| 0 <= j < out@.len() ==> crate::value::word_is_symbol(
                (#[trigger] out@[j]).0,
            ),
        decreases n - i,
    {
        proof {
            reveal(Seq::filter);
            assert(keys@.take(i as int + 1).drop_last() =~= keys@.take(i as int));
            assert(keys@.take(i as int + 1).last() == keys@[i as int]);
        }
        let id = keys[i];
        let is_const = if (id.0 as usize) < globals.idents.names.len() {
            let name = globals.get_ident_name(id);
            let cs = crate::string::chars_of(name.as_str());
            if cs.len() > 0 {
                let u = cs[0] as u32;
                65 <= u && u <= 90
            } else {
                false
            }
        } else {
            false
        };
        if is_const {
            let sym = PackedValue::symbol(id);
            out.push(sym);
            proof {
                let taken = keys@.take(i as int);
                let taken1 = keys@.take(i as int + 1);
                assert(taken1.filter(pred) =~= taken.filter(pred).push(keys@[i as int]));
                assert(taken1.filter(pred).map(tosym) =~= taken.filter(pred).map(tosym).push(
                    tosym(0, keys@[i as int]),
                ));
            }
        } else {
            proof {
                let taken = keys@.take(i as int);
                let taken1 = keys@.take(i as int + 1);
                assert(taken1.filter(pred) =~= taken.filter(pred));
            }
        }
        i += 1;
    }
    proof {
        assert(keys@.take(n as int) =~= keys@);
        assert forall|j: int| 0 <= j < out@.len() implies globals.word_ok(
            (#[trigger] out@[j]).0,
        ) by {}
    }
    out
}

/// Collects the constants visible from a class value.
fn constants_walk(globals: &Globals, start: PackedValue) -> (r: Vec<PackedValue>)
    requires
        globals.wf0(),
        globals.word_ok(start.0),
        globals.is_class_word(start.0),
    ensures
        r@ == spec_constants(*globals, start.0),
        forall|j: int| 0 <= j < r@.len() ==> globals.word_ok((#[trigger] r@[j]).0),
{
    let mut ary: Vec<PackedValue> = Vec::new();
    let mut cur = start;
    loop
        invariant_except_break
            globals.is_class_word(cur.0),
            globals.word_ok(cur.0),
            spec_constants(*globals, start.0) == ary@ + spec_constants(*globals, cur.0),
        invariant
            globals.wf0(),
            forall|j: int| 0 <= j < ary@.len() ==> globals.word_ok((#[trigger] ary@[j]).0),
        ensures
            ary@ == spec_constants(*globals, start.0),
        decreases globals.word_cref(cur.0).0,
    {
        let ghost before = ary@;
        let mut own = const_syms(globals, cur);
        let ghost own_seq = own@;
        ary.append(&mut own);
        proof {
            assert(ary@ =~= before + own_seq);
            assert forall|j: int| 0 <= j < ary@.len() implies globals.word_ok(
                (#[trigger] ary@[j]).0,
            ) by {
                if j < before.len() {
                    assert(ary@[j] == before[j]);
                } else {
                    assert(ary@[j] == own_seq[j - before.len()]);
                }
            }
        }
        match walk_superclass(globals, cur) {
            Some(sv) => {
                if sv.id() == globals.object.id() {
                    proof {
                        assert(sv == globals.object);
                        assert(spec_constants(*globals, cur.0) == const_syms_of(*globals, cur.0));
                        assert(ary@ =~= spec_constants(*globals, start.0));
                    }
                    break ;
                }
                proof {
                    assert(sv != globals.object);
                    assert(spec_constants(*globals, cur.0) == const_syms_of(*globals, cur.0)
                        + spec_constants(*globals, sv.0));
                    assert(ary@ + spec_constants(*globals, sv.0) =~= before + spec_constants(
                        *globals,
                        cur.0,
                    ));
                }
                cur = sv;
            },
            None => {
                proof {
                    assert(spec_constants(*globals, cur.0) == const_syms_of(*globals, cur.0));
                    assert(ary@ =~= spec_constants(*globals, start.0));
                }
                break ;
            },
        }
    }
    ary
}

/// `Module#constants`: the uppercase-named bindings of the receiver and of
/// its superclasses, up to and excluding the universal base class, as
/// symbols.
pub fn constants(vm: &mut VM, self_val: PackedValue, args: VecArray, _block: Option<MethodRef>) -> (r:
    VMResult)
    requires
        old(vm).wf(),
        old(vm).globals.word_ok(self_val.0),
        args.wf(),
    ensures
        final(vm).wf(),
        grows(old(vm).globals, final(vm).globals),
        same_builtins(old(vm).globals, final(vm).globals),
        result_ok(final(vm).globals, r),
        (args@.len() == 0 && old(vm).globals.is_class_word(self_val.0) && old(vm).globals.spec_can_alloc()) ==> (r matches Ok(v) && (final(vm).globals.spec_as_array(v.0)
            matches Some(na) && final(vm).globals.arrays@[na.0 as int].elements@ == spec_constants(
            old(vm).globals,
            self_val.0,
        ))),
        args@.len() == 0 && !old(vm).globals.is_class_word(self_val.0) ==> r matches Err(
            RubyError::Type(_),
        ),
        args@.len() != 0 ==> r matches Err(RubyError::Argument(_)),
{
    match vm.check_args_num(args.len(), 0, 0) {
        Ok(_) => {},
        Err(e) => {
            return Err(e);
        },
    }
    match self_val.as_module(&vm.globals) {
        Some(_) => {},
        None => {
            return Err(vm.error_type("Receiver must be a module or class."));
        },
    }
    if !vm.globals.can_alloc() {
        return Err(vm.error_internal("the heap is full"));
    }
    let ary = constants_walk(&vm.globals, self_val);
    let res = PackedValue::array_from(&mut vm.globals, ary);
    Ok(res)
}

// ---------------------------------------------------------------------------
// Constant lookup.
// ---------------------------------------------------------------------------

/// The first binding of a name found walking the superclass chain from a
/// class value; absent when the chain is exhausted.
pub open spec fn spec_const_lookup(g: Globals, w: u64, id: IdentId) -> Option<PackedValue>
    decreases g.word_cref(w).0,
{
    if !g.is_class_word(w) {
        None
    } else {
        let c = g.word_cref(w);
        match g.obj_at(w).var_table.spec_get(id) {
            Some(v) => Some(v),
            None => match g.spec_superclass_val(c) {
                Some(sv) => if g.is_class_word(sv.0) && g.word_cref(sv.0).0 < c.0 {
                    spec_const_lookup(g, sv.0, id)
                } else {
                    None
                },
                None => None,
            },
        }
    }
}

/// Walks the superclass chain for a constant binding.
fn const_lookup(globals: &Globals, start: PackedValue, id: IdentId) -> (r: Option<PackedValue>)
    requires
        globals.wf0(),
        globals.word_ok(start.0),
        globals.is_class_word(start.0),
    ensures
        r == spec_const_lookup(*globals, start.0, id),
        r matches Some(v) ==> globals.word_ok(v.0),
{
    let mut cur = start;
    loop
        invariant_except_break
            globals.is_class_word(cur.0),
            globals.word_ok(cur.0),
            spec_const_lookup(*globals, start.0, id) == spec_const_lookup(*globals, cur.0, id),
        invariant
            globals.wf0(),
        ensures
            match spec_const_lookup(*globals, start.0, id) {
                Some(v) => globals.word_ok(v.0),
                None => true,
            },
        decreases globals.word_cref(cur.0).0,
    {
        match cur.get_var(globals, id) {
            Some(v) => {
                proof {
                    assert(spec_const_lookup(*globals, cur.0, id) == Some(v));
                }
                return Some(v);
            },
            None => {},
        }
        match walk_superclass(globals, cur) {
            Some(sv) => {
                cur = sv;
            },
            None => {
                proof {
                    assert(spec_const_lookup(*globals, cur.0, id) is None);
                }
                return None;
            },
        }
    }
}

/// `Module#const_get`: resolves a symbol to the constant bound under it in
/// the receiver or its superclasses; an exhausted chain is a name error.
pub fn const_get(vm: &mut VM, self_val: PackedValue, args: VecArray, _block: Option<MethodRef>) -> (r:
    VMResult)
    requires
        old(vm).wf(),
        old(vm).globals.word_ok(self_val.0),
        args.wf(),
        args_ok(old(vm).globals, args@),
    ensures
        final(vm).wf(),
        grows(old(vm).globals, final(vm).globals),
        same_builtins(old(vm).globals, final(vm).globals),
        result_ok(final(vm).globals, r),
        (args@.len() == 1 && crate::value::word_is_symbol(args@[0].0) && old(vm).globals.is_class_word(self_val.0)) ==> match spec_const_lookup(
            old(vm).globals,
            self_val.0,
            IdentId(crate::value::decode_symbol(args@[0].0)),
        ) {
            Some(v) => r == Ok::<PackedValue, RubyError>(v),
            None => r matches Err(RubyError::Name(_)),
        },
        args@.len() == 1 && !crate::value::word_is_symbol(args@[0].0) ==> r matches Err(
            RubyError::Type(_),
        ),
        args@.len() != 1 ==> r matches Err(RubyError::Argument(_)),
{
    match vm.check_args_num(args.len(), 1, 1) {
        Ok(_) => {},
        Err(e) => {
            return Err(e);
        },
    }
    let a0 = args.get(0);
    let name = match a0.as_symbol() {
        Some(symbol) => symbol,
        None => {
            return Err(vm.error_type("1st arg must be Symbol."));
        },
    };
    match self_val.as_module(&vm.globals) {
        Some(_) => {},
        None => {
            return Err(vm.error_type("Receiver must be a module or class."));
        },
    }
    match const_lookup(&vm.globals, self_val, name) {
        Some(v) => Ok(v),
        None => Err(vm.error_name("Uninitialized constant.")),
    }
}

// ---------------------------------------------------------------------------
// Method listings.
// ---------------------------------------------------------------------------

/// Whether some class along the superclass chain of a class value defines
/// a method under the name.  Included modules are deliberately not
/// consulted here: the listing unions superclass tables only, unlike
/// resolution and the ancestor walk.
pub open spec fn chain_has_method(g: Globals, w: u64, id: IdentId) -> bool
    decreases g.word_cref(w).0,
{
    if !g.is_class_word(w) {
        false
    } else {
        let c = g.word_cref(w);
        g.classes@[c.0 as int].instance_method.spec_contains(id) || (
        match g.spec_superclass_val(c) {
            Some(sv) => g.is_class_word(sv.0) && g.word_cref(sv.0).0 < c.0 && chain_has_method(
                g,
                sv.0,
                id,
            ),
            None => false,
        })
    }
}

/// In a table with unique keys, the key list and the lookup agree.
pub proof fn lemma_keys_contains<T: Copy>(m: crate::idmap::IdMap<T>, id: IdentId)
    requires
        m.wf(),
    ensures
        m.spec_keys().contains(id) <==> m.spec_contains(id),
{
    if m.spec_keys().contains(id) {
        let j = choose|j: int| 0 <= j < m.spec_keys().len() && m.spec_keys()[j] == id;
        assert(m.entries@[j].0 == id);
        crate::idmap::lemma_entries_get_found(m.entries@, j, id);
    }
    if m.spec_contains(id) {
        crate::globals::lemma_entries_get_is_entry(m.entries@, id);
        let j = choose|j: int|
            0 <= j < m.entries@.len() && (#[trigger] m.entries@[j]).0 == id && m.entries@[j].1
                == crate::idmap::entries_get(m.entries@, id)->0;
        assert(m.spec_keys()[j] == id);
    }
}

/// Whether a vector holds an identifier.
fn vec_contains_id(v: &Vec<IdentId>, id: IdentId) -> (r: bool)
    ensures
        r == v@.contains(id),
{
    let n = v.len();
    let mut i: usize = 0;
    while i < n
        invariant
            n == v@.len(),
            i <= n,
            forall|j: int| 0 <= j < i ==> v@[j] != id,
        decreases n - i,
    {
        if v[i] == id {
            return true;
        }
        i += 1;
    }
    false
}

/// The set union of the instance-method names along the superclass chain,
/// without duplicates.
fn methods_union(globals: &Globals, start: PackedValue) -> (r: Vec<IdentId>)
    requires
        globals.wf0(),
        globals.word_ok(start.0),
        globals.is_class_word(start.0),
    ensures
        forall|i: int, j: int| 0 <= i < j < r@.len() ==> r@[i] != r@[j],
        forall|j: int| 0 <= j < r@.len() ==> chain_has_method(*globals, start.0, #[trigger] r@[j]),
        forall|id: IdentId| chain_has_method(*globals, start.0, id) ==> r@.contains(id),
{
    let mut seen: Vec<IdentId> = Vec::new();
    let mut cur = start;
    loop
        invariant_except_break
            globals.is_class_word(cur.0),
            globals.word_ok(cur.0),
            forall|id: IdentId|
                chain_has_method(*globals, start.0, id) <==> seen@.contains(id)
                    || chain_has_method(*globals, cur.0, id),
            forall|id: IdentId|
                chain_has_method(*globals, cur.0, id) ==> chain_has_method(*globals, start.0, id),
        invariant
            globals.wf0(),
            forall|i: int, j: int| 0 <= i < j < seen@.len() ==> seen@[i] != seen@[j],
            forall|j: int|
                0 <= j < seen@.len() ==> chain_has_method(*globals, start.0, #[trigger] seen@[j]),
        ensures
            forall|id: IdentId| chain_has_method(*globals, start.0, id) ==> seen@.contains(id),
        decreases globals.word_cref(cur.0).0,
    {
        let cref = cur.as_class(globals);
        proof {
            assert(globals.class_ok(cref.0 as int));
        }
        let keys = globals.classes[cref.0].instance_method.keys();
        let nk = keys.len();
        let mut k: usize = 0;
        while k < nk
            invariant
                globals.wf0(),
                globals.is_class_word(cur.0),
                cref == globals.word_cref(cur.0),
                cref.0 < globals.classes@.len(),
                keys@ == globals.classes@[cref.0 as int].instance_method.spec_keys(),
                nk == keys@.len(),
                k <= nk,
                forall|i: int, j: int| 0 <= i < j < seen@.len() ==> seen@[i] != seen@[j],
                forall|j: int|
                    0 <= j < seen@.len() ==> chain_has_method(
                        *globals,
                        start.0,
                        #[trigger] seen@[j],
                    ),
                forall|id: IdentId|
                    chain_has_method(*globals, cur.0, id) ==> chain_has_method(
                        *globals,
                        start.0,
                        id,
                    ),
                forall|id: IdentId|
                    chain_has_method(*globals, start.0, id) <==> seen@.contains(id)
                        || chain_has_method(*globals, cur.0, id),
                forall|j: int| 0 <= j < k ==> seen@.contains(#[trigger] keys@[j]),
            decreases nk - k,
        {
            let id = keys[k];
            proof {
                assert(globals.class_ok(cref.0 as int));
            }
            if !vec_contains_id(&seen, id) {
                proof {
                    lemma_keys_contains(
                        globals.classes@[cref.0 as int].instance_method,
                        id,
                    );
                    assert(globals.classes@[cref.0 as int].instance_method.spec_keys().contains(
                        id,
                    ));
                    assert(chain_has_method(*globals, cur.0, id));
                }
                let ghost old_seen = seen@;
                seen.push(id);
                proof {
                    assert forall|id2: IdentId| #[trigger]
                        seen@.contains(id2) implies old_seen.contains(id2) || id2 == id by {
                        let j = choose|j: int| 0 <= j < seen@.len() && seen@[j] == id2;
                        if j < old_seen.len() {
                            assert(old_seen[j] == id2);
                        }
                    }
                    assert forall|id2: IdentId| old_seen.contains(id2) implies seen@.contains(
                        id2,
                    ) by {
                        let j = choose|j: int| 0 <= j < old_seen.len() && old_seen[j] == id2;
                        assert(seen@[j] == id2);
                    }
                    assert(seen@.contains(id)) by {
                        assert(seen@[old_seen.len() as int] == id);
                    }
                    assert forall|id2: IdentId|
                        chain_has_method(*globals, start.0, id2) <==> seen@.contains(id2)
                            || chain_has_method(*globals, cur.0, id2) by {
                        if seen@.contains(id2) {
                            if old_seen.contains(id2) {
                            } else {
                                assert(id2 == id);
                                assert(chain_has_method(*globals, cur.0, id));
                            }
                        }
                        if chain_has_method(*globals, start.0, id2) {
                            assert(old_seen.contains(id2) || chain_has_method(
                                *globals,
                                cur.0,
                                id2,
                            ));
                            if old_seen.contains(id2) {
                                assert(seen@.contains(id2));
                            }
                        }
                    }
                }
            }
            k += 1;
        }
        match walk_superclass(globals, cur) {
            Some(sv) => {
                proof {
                    assert(globals.class_ok(cref.0 as int));
                    assert forall|id: IdentId|
                        chain_has_method(*globals, cur.0, id) implies seen@.contains(id)
                        || chain_has_method(*globals, sv.0, id) by {
                        if globals.classes@[cref.0 as int].instance_method.spec_contains(id) {
                            lemma_keys_contains(
                                globals.classes@[cref.0 as int].instance_method,
                                id,
                            );
                            let j = choose|j: int|
                                0 <= j < keys@.len() && keys@[j] == id;
                            assert(seen@.contains(keys@[j]));
                        }
                    }
                }
                cur = sv;
            },
            None => {
                proof {
                    assert(globals.class_ok(cref.0 as int));
                    assert forall|id: IdentId|
                        chain_has_method(*globals, start.0, id) implies seen@.contains(id) by {
                        if chain_has_method(*globals, cur.0, id) {
                            lemma_keys_contains(
                                globals.classes@[cref.0 as int].instance_method,
                                id,
                            );
                            let j = choose|j: int|
                                0 <= j < keys@.len() && keys@[j] == id;
                            assert(seen@.contains(keys@[j]));
                        }
                    }
                }
                break ;
            },
        }
    }
    seen
}

/// Maps identifiers to symbol values.
fn ids_to_symbols(ids: &Vec<IdentId>) -> (r: Vec<PackedValue>)
    ensures
        r@ == ids@.map(|i: int, id: IdentId| PackedValue(crate::value::encode_symbol(id.0))),
        forall|j: int| 0 <= j < r@.len() ==> crate::value::word_is_symbol((#[trigger] r@[j]).0),
{
    let ghost tosym = |i: int, id: IdentId| PackedValue(crate::value::encode_symbol(id.0));
    let n = ids.len();
    let mut out: Vec<PackedValue> = Vec::new();
    let mut i: usize = 0;
    while i < n
        invariant
            n == ids@.len(),
            i <= n,
            tosym == (|i2: int, id: IdentId| PackedValue(crate::value::encode_symbol(id.0))),
            out@ == ids@.take(i as int).map(tosym),
            forall|j: int| 0 <= j < out@.len() ==> crate::value::word_is_symbol(
                (#[trigger] out@[j]).0,
            ),
        decreases n - i,
    {
        let sym = PackedValue::symbol(ids[i]);
        out.push(sym);
        proof {
            assert(ids@.take(i as int + 1).map(tosym) =~= ids@.take(i as int).map(tosym).push(
                tosym(i as int, ids@[i as int]),
            ));
        }
        i += 1;
    }
    proof {
        assert(ids@.take(n as int) =~= ids@);
    }
    out
}

/// `Module#instance_methods`: with a false argument, the names in the
/// receiver's own table; otherwise the union of the names along the
/// superclass chain, without duplicates.  Included modules are not
/// consulted, unlike in resolution: the asymmetry is deliberate.
pub fn instance_methods(vm: &mut VM, self_val: PackedValue, args: VecArray, _block: Option<
    MethodRef,
>) -> (r: VMResult)
    requires
        old(vm).wf(),
        old(vm).globals.word_ok(self_val.0),
        args.wf(),
        args_ok(old(vm).globals, args@),
    ensures
        final(vm).wf(),
        grows(old(vm).globals, final(vm).globals),
        same_builtins(old(vm).globals, final(vm).globals),
        result_ok(final(vm).globals, r),
        args@.len() > 1 ==> r matches Err(RubyError::Argument(_)),
        !old(vm).globals.is_class_word(self_val.0) && args@.len() <= 1 ==> r matches Err(
            RubyError::Type(_),
        ),
        (old(vm).globals.is_class_word(self_val.0) && args@.len() == 1 && (args@[0]
            == PackedValue::spec_false() || args@[0] == PackedValue::spec_nil()) && old(vm).globals.spec_can_alloc()) ==> (r matches Ok(v) && (final(vm).globals.spec_as_array(v.0)
            matches Some(na) && final(vm).globals.arrays@[na.0 as int].elements@ == old(vm).globals.classes@[old(vm).globals.word_cref(
            self_val.0,
        ).0 as int].instance_method.spec_keys().map(
            |i: int, id: IdentId| PackedValue(crate::value::encode_symbol(id.0)),
        ))),
        (old(vm).globals.is_class_word(self_val.0) && (args@.len() == 0 || (args@.len() == 1
            && args@[0] != PackedValue::spec_false() && args@[0] != PackedValue::spec_nil()))
            && old(vm).globals.spec_can_alloc()) ==> (r matches Ok(v) && (final(vm).globals.spec_as_array(v.0) matches Some(na) && {
            let elems = final(vm).globals.arrays@[na.0 as int].elements@;
            &&& forall|i: int, j: int| 0 <= i < j < elems.len() ==> elems[i] != elems[j]
            &&& forall|j: int|
                0 <= j < elems.len() ==> chain_has_method(
                    old(vm).globals,
                    self_val.0,
                    IdentId(crate::value::decode_symbol((#[trigger] elems[j]).0)),
                ) && crate::value::word_is_symbol(elems[j].0)
            &&& forall|id: IdentId|
                chain_has_method(old(vm).globals, self_val.0, id) ==> elems.contains(
                    PackedValue(crate::value::encode_symbol(id.0)),
                )
        })),
{
    match vm.check_args_num(args.len(), 0, 1) {
        Ok(_) => {},
        Err(e) => {
            return Err(e);
        },
    }
    let cref = match self_val.as_module(&vm.globals) {
        Some(cref) => cref,
        None => {
            return Err(vm.error_type("Receiver must be a module or class."));
        },
    };
    let inherited_too = if args.len() == 0 {
        true
    } else {
        let a0 = args.get(0);
        !(a0.is_false_val() || a0.is_nil())
    };
    if !vm.globals.can_alloc() {
        return Err(vm.error_internal("the heap is full"));
    }
    if !inherited_too {
        proof {
            assert(vm.globals.class_ok(cref.0 as int));
        }
        let keys = vm.globals.classes[cref.0].instance_method.keys();
        let syms = ids_to_symbols(&keys);
        proof {
            assert forall|j: int| 0 <= j < syms@.len() implies vm.globals.word_ok(
                (#[trigger] syms@[j]).0,
            ) by {}
        }
        let res = PackedValue::array_from(&mut vm.globals, syms);
        Ok(res)
    } else {
        let ids = methods_union(&vm.globals, self_val);
        let syms = ids_to_symbols(&ids);
        proof {
            assert forall|j: int| 0 <= j < syms@.len() implies vm.globals.word_ok(
                (#[trigger] syms@[j]).0,
            ) by {}
            let tosym = |i: int, id: IdentId| PackedValue(crate::value::encode_symbol(id.0));
            assert forall|i: int, j: int| 0 <= i < j < syms@.len() implies syms@[i] != syms@[j] by {
                crate::value::lemma_symbol_roundtrip(ids@[i].0);
                crate::value::lemma_symbol_roundtrip(ids@[j].0);
            }
            assert forall|j: int|
                0 <= j < syms@.len() implies chain_has_method(
                vm.globals,
                self_val.0,
                IdentId(crate::value::decode_symbol((#[trigger] syms@[j]).0)),
            ) by {
                crate::value::lemma_symbol_roundtrip(ids@[j].0);
                assert(ids@[j].0 < 0x1_0000_0000);
                assert(IdentId(crate::value::decode_symbol(syms@[j].0)) == ids@[j]);
            }
            assert forall|id: IdentId|
                chain_has_method(vm.globals, self_val.0, id) implies syms@.contains(
                PackedValue(crate::value::encode_symbol(id.0)),
            ) by {
                assert(ids@.contains(id));
                let j = choose|j: int| 0 <= j < ids@.len() && ids@[j] == id;
                assert(syms@[j] == PackedValue(crate::value::encode_symbol(id.0)));
            }
        }
        let res = PackedValue::array_from(&mut vm.globals, syms);
        Ok(res)
    }
}

} // verus!
