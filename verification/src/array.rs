//! The native array methods.
//!
//! All of them resolve through the Array class; the iteration methods
//! re-enter interpreted code through the evaluator, once per element, and
//! iterate over a snapshot of the receiver taken before the first re-entry,
//! so a block that mutates the receiver cannot corrupt the iteration.

use vstd::prelude::*;
use crate::globals::{same_builtins, spec_val_equal, Globals};
use crate::method::{BuiltinId, MethodInfo, MethodRef};
use crate::object::ArrayRef;
use crate::value::{PackedValue, Value, VecArray};
use crate::vm::{args_ok, bind_params, block_ok, classify_block_result, grows, result_ok, BlockStep, Evaluator, RubyError, VM, VMResult};

verus! {

/// `n` copies of `s`, concatenated.
pub open spec fn repeat_seq(s: Seq<PackedValue>, n: nat) -> Seq<PackedValue>
    decreases n,
{
    if n == 0 {
        Seq::empty()
    } else {
        repeat_seq(s, (n - 1) as nat) + s
    }
}

/// Installs the native array methods on the Array class and hands back its
/// class value.
#[verifier::rlimit(60)]
pub fn init_array(globals: &mut Globals) -> (obj: PackedValue)
    requires
        old(globals).wf(),
        old(globals).idents.names@.len() + 40 < 0x8000_0000,
    ensures
        final(globals).wf(),
        final(globals).is_class_word(obj.0),
        final(globals).idents.names@.len() <= old(globals).idents.names@.len() + 20,
        final(globals).heap@.len() == old(globals).heap@.len(),
        crate::vm::grows(*old(globals), *final(globals)),
        same_builtins(*old(globals), *final(globals)),
        obj == old(globals).array,
        final(globals).builtin_installed(
            old(globals).word_cref(old(globals).array.0),
            "push"@,
            BuiltinId::ArrayPush,
        ),
        final(globals).builtin_installed(
            old(globals).word_cref(old(globals).array.0),
            "<<"@,
            BuiltinId::ArrayPush,
        ),
        final(globals).builtin_installed(
            old(globals).word_cref(old(globals).array.0),
            "pop"@,
            BuiltinId::ArrayPop,
        ),
        final(globals).builtin_installed(
            old(globals).word_cref(old(globals).array.0),
            "length"@,
            BuiltinId::ArrayLength,
        ),
        final(globals).builtin_installed(
            old(globals).word_cref(old(globals).array.0),
            "size"@,
            BuiltinId::ArrayLength,
        ),
        final(globals).builtin_installed(
            old(globals).word_cref(old(globals).array.0),
            "*"@,
            BuiltinId::ArrayMul,
        ),
        final(globals).builtin_installed(
            old(globals).word_cref(old(globals).array.0),
            "+"@,
            BuiltinId::ArrayAdd,
        ),
        final(globals).builtin_installed(
            old(globals).word_cref(old(globals).array.0),
            "-"@,
            BuiltinId::ArraySub,
        ),
        final(globals).builtin_installed(
            old(globals).word_cref(old(globals).array.0),
            "map"@,
            BuiltinId::ArrayMap,
        ),
        final(globals).builtin_installed(
            old(globals).word_cref(old(globals).array.0),
            "each"@,
            BuiltinId::ArrayEach,
        ),
        final(globals).builtin_installed(
            old(globals).word_cref(old(globals).array.0),
            "include?"@,
            BuiltinId::ArrayInclude,
        ),
        final(globals).builtin_installed(
            old(globals).word_cref(old(globals).array.0),
            "reverse"@,
            BuiltinId::ArrayReverse,
        ),
        final(globals).builtin_installed(
            old(globals).word_cref(old(globals).array.0),
            "reverse!"@,
            BuiltinId::ArrayReverseBang,
        ),
        final(globals).builtin_installed(
            old(globals).word_cref(old(globals).array.0),
            "transpose"@,
            BuiltinId::ArrayTranspose,
        ),
        final(globals).builtin_class_installed(
            old(globals).word_cref(old(globals).array.0),
            "new"@,
            BuiltinId::ArrayNew,
        ),
{
    proof {
        reveal_strlit("push");
        reveal_strlit("<<");
        reveal_strlit("pop");
        reveal_strlit("length");
        reveal_strlit("size");
        reveal_strlit("*");
        reveal_strlit("+");
        reveal_strlit("-");
        reveal_strlit("map");
        reveal_strlit("each");
        reveal_strlit("include?");
        reveal_strlit("reverse");
        reveal_strlit("reverse!");
        reveal_strlit("transpose");
        reveal_strlit("new");
    }
    let obj = globals.array;
    let class = obj.as_class(globals);
    globals.add_builtin_instance_method(class, "push", BuiltinId::ArrayPush);
    globals.add_builtin_instance_method(class, "<<", BuiltinId::ArrayPush);
    proof {
        assert("push"@ != "<<"@) by {
            assert("push"@.len() == 4);
            assert("<<"@.len() == 2);
        }
        assert(globals.builtin_installed(class, "push"@, BuiltinId::ArrayPush));
    }
    globals.add_builtin_instance_method(class, "pop", BuiltinId::ArrayPop);
    proof {
        assert("push"@ != "pop"@) by {
            assert("push"@.len() == 4);
            assert("pop"@.len() == 3);
        }
        assert(globals.builtin_installed(class, "push"@, BuiltinId::ArrayPush));
        assert("<<"@ != "pop"@) by {
            assert("<<"@.len() == 2);
            assert("pop"@.len() == 3);
        }
        assert(globals.builtin_installed(class, "<<"@, BuiltinId::ArrayPush));
    }
    globals.add_builtin_instance_method(class, "length", BuiltinId::ArrayLength);
    proof {
        assert("push"@ != "length"@) by {
            assert("push"@.len() == 4);
            assert("length"@.len() == 6);
        }
        assert(globals.builtin_installed(class, "push"@, BuiltinId::ArrayPush));
        assert("<<"@ != "length"@) by {
            assert("<<"@.len() == 2);
            assert("length"@.len() == 6);
        }
        assert(globals.builtin_installed(class, "<<"@, BuiltinId::ArrayPush));
        assert("pop"@ != "length"@) by {
            assert("pop"@.len() == 3);
            assert("length"@.len() == 6);
        }
        assert(globals.builtin_installed(class, "pop"@, BuiltinId::ArrayPop));
    }
    globals.add_builtin_instance_method(class, "size", BuiltinId::ArrayLength);
    proof {
        assert("push"@ != "size"@) by {
            assert("push"@[0] == 'p');
            assert("size"@[0] == 's');
        }
        assert(globals.builtin_installed(class, "push"@, BuiltinId::ArrayPush));
        assert("<<"@ != "size"@) by {
            assert("<<"@.len() == 2);
            assert("size"@.len() == 4);
        }
        assert(globals.builtin_installed(class, "<<"@, BuiltinId::ArrayPush));
        assert("pop"@ != "size"@) by {
            assert("pop"@.len() == 3);
            assert("size"@.len() == 4);
        }
        assert(globals.builtin_installed(class, "pop"@, BuiltinId::ArrayPop));
        assert("length"@ != "size"@) by {
            assert("length"@.len() == 6);
            assert("size"@.len() == 4);
        }
        assert(globals.builtin_installed(class, "length"@, BuiltinId::ArrayLength));
    }
    globals.add_builtin_instance_method(class, "*", BuiltinId::ArrayMul);
    proof {
        assert("push"@ != "*"@) by {
            assert("push"@.len() == 4);
            assert("*"@.len() == 1);
        }
        assert(globals.builtin_installed(class, "push"@, BuiltinId::ArrayPush));
        assert("<<"@ != "*"@) by {
            assert("<<"@.len() == 2);
            assert("*"@.len() == 1);
        }
        assert(globals.builtin_installed(class, "<<"@, BuiltinId::ArrayPush));
        assert("pop"@ != "*"@) by {
            assert("pop"@.len() == 3);
            assert("*"@.len() == 1);
        }
        assert(globals.builtin_installed(class, "pop"@, BuiltinId::ArrayPop));
        assert("length"@ != "*"@) by {
            assert("length"@.len() == 6);
            assert("*"@.len() == 1);
        }
        assert(globals.builtin_installed(class, "length"@, BuiltinId::ArrayLength));
        assert("size"@ != "*"@) by {
            assert("size"@.len() == 4);
            assert("*"@.len() == 1);
        }
        assert(globals.builtin_installed(class, "size"@, BuiltinId::ArrayLength));
    }
    globals.add_builtin_instance_method(class, "+", BuiltinId::ArrayAdd);
    proof {
        assert("push"@ != "+"@) by {
            assert("push"@.len() == 4);
            assert("+"@.len() == 1);
        }
        assert(globals.builtin_installed(class, "push"@, BuiltinId::ArrayPush));
        assert("<<"@ != "+"@) by {
            assert("<<"@.len() == 2);
            assert("+"@.len() == 1);
        }
        assert(globals.builtin_installed(class, "<<"@, BuiltinId::ArrayPush));
        assert("pop"@ != "+"@) by {
            assert("pop"@.len() == 3);
            assert("+"@.len() == 1);
        }
        assert(globals.builtin_installed(class, "pop"@, BuiltinId::ArrayPop));
        assert("length"@ != "+"@) by {
            assert("length"@.len() == 6);
            assert("+"@.len() == 1);
        }
        assert(globals.builtin_installed(class, "length"@, BuiltinId::ArrayLength));
        assert("size"@ != "+"@) by {
            assert("size"@.len() == 4);
            assert("+"@.len() == 1);
        }
        assert(globals.builtin_installed(class, "size"@, BuiltinId::ArrayLength));
        assert("*"@ != "+"@) by {
            assert("*"@[0] == '*');
            assert("+"@[0] == '+');
        }
        assert(globals.builtin_installed(class, "*"@, BuiltinId::ArrayMul));
    }
    globals.add_builtin_instance_method(class, "-", BuiltinId::ArraySub);
    proof {
        assert("push"@ != "-"@) by {
            assert("push"@.len() == 4);
            assert("-"@.len() == 1);
        }
        assert(globals.builtin_installed(class, "push"@, BuiltinId::ArrayPush));
        assert("<<"@ != "-"@) by {
            assert("<<"@.len() == 2);
            assert("-"@.len() == 1);
        }
        assert(globals.builtin_installed(class, "<<"@, BuiltinId::ArrayPush));
        assert("pop"@ != "-"@) by {
            assert("pop"@.len() == 3);
            assert("-"@.len() == 1);
        }
        assert(globals.builtin_installed(class, "pop"@, BuiltinId::ArrayPop));
        assert("length"@ != "-"@) by {
            assert("length"@.len() == 6);
            assert("-"@.len() == 1);
        }
        assert(globals.builtin_installed(class, "length"@, BuiltinId::ArrayLength));
        assert("size"@ != "-"@) by {
            assert("size"@.len() == 4);
            assert("-"@.len() == 1);
        }
        assert(globals.builtin_installed(class, "size"@, BuiltinId::ArrayLength));
        assert("*"@ != "-"@) by {
            assert("*"@[0] == '*');
            assert("-"@[0] == '-');
        }
        assert(globals.builtin_installed(class, "*"@, BuiltinId::ArrayMul));
        assert("+"@ != "-"@) by {
            assert("+"@[0] == '+');
            assert("-"@[0] == '-');
        }
        assert(globals.builtin_installed(class, "+"@, BuiltinId::ArrayAdd));
    }
    globals.add_builtin_instance_method(class, "map", BuiltinId::ArrayMap);
    proof {
        assert("push"@ != "map"@) by {
            assert("push"@.len() == 4);
            assert("map"@.len() == 3);
        }
        assert(globals.builtin_installed(class, "push"@, BuiltinId::ArrayPush));
        assert("<<"@ != "map"@) by {
            assert("<<"@.len() == 2);
            assert("map"@.len() == 3);
        }
        assert(globals.builtin_installed(class, "<<"@, BuiltinId::ArrayPush));
        assert("pop"@ != "map"@) by {
            assert("pop"@[0] == 'p');
            assert("map"@[0] == 'm');
        }
        assert(globals.builtin_installed(class, "pop"@, BuiltinId::ArrayPop));
        assert("length"@ != "map"@) by {
            assert("length"@.len() == 6);
            assert("map"@.len() == 3);
        }
        assert(globals.builtin_installed(class, "length"@, BuiltinId::ArrayLength));
        assert("size"@ != "map"@) by {
            assert("size"@.len() == 4);
            assert("map"@.len() == 3);
        }
        assert(globals.builtin_installed(class, "size"@, BuiltinId::ArrayLength));
        assert("*"@ != "map"@) by {
            assert("*"@.len() == 1);
            assert("map"@.len() == 3);
        }
        assert(globals.builtin_installed(class, "*"@, BuiltinId::ArrayMul));
        assert("+"@ != "map"@) by {
            assert("+"@.len() == 1);
            assert("map"@.len() == 3);
        }
        assert(globals.builtin_installed(class, "+"@, BuiltinId::ArrayAdd));
        assert("-"@ != "map"@) by {
            assert("-"@.len() == 1);
            assert("map"@.len() == 3);
        }
        assert(globals.builtin_installed(class, "-"@, BuiltinId::ArraySub));
    }
    globals.add_builtin_instance_method(class, "each", BuiltinId::ArrayEach);
    proof {
        assert("push"@ != "each"@) by {
            assert("push"@[0] == 'p');
            assert("each"@[0] == 'e');
        }
        assert(globals.builtin_installed(class, "push"@, BuiltinId::ArrayPush));
        assert("<<"@ != "each"@) by {
            assert("<<"@.len() == 2);
            assert("each"@.len() == 4);
        }
        assert(globals.builtin_installed(class, "<<"@, BuiltinId::ArrayPush));
        assert("pop"@ != "each"@) by {
            assert("pop"@.len() == 3);
            assert("each"@.len() == 4);
        }
        assert(globals.builtin_installed(class, "pop"@, BuiltinId::ArrayPop));
        assert("length"@ != "each"@) by {
            assert("length"@.len() == 6);
            assert("each"@.len() == 4);
        }
        assert(globals.builtin_installed(class, "length"@, BuiltinId::ArrayLength));
        assert("size"@ != "each"@) by {
            assert("size"@[0] == 's');
            assert("each"@[0] == 'e');
        }
        assert(globals.builtin_installed(class, "size"@, BuiltinId::ArrayLength));
        assert("*"@ != "each"@) by {
            assert("*"@.len() == 1);
            assert("each"@.len() == 4);
        }
        assert(globals.builtin_installed(class, "*"@, BuiltinId::ArrayMul));
        assert("+"@ != "each"@) by {
            assert("+"@.len() == 1);
            assert("each"@.len() == 4);
        }
        assert(globals.builtin_installed(class, "+"@, BuiltinId::ArrayAdd));
        assert("-"@ != "each"@) by {
            assert("-"@.len() == 1);
            assert("each"@.len() == 4);
        }
        assert(globals.builtin_installed(class, "-"@, BuiltinId::ArraySub));
        assert("map"@ != "each"@) by {
            assert("map"@.len() == 3);
            assert("each"@.len() == 4);
        }
        assert(globals.builtin_installed(class, "map"@, BuiltinId::ArrayMap));
    }
    globals.add_builtin_instance_method(class, "include?", BuiltinId::ArrayInclude);
    proof {
        assert("push"@ != "include?"@) by {
            assert("push"@.len() == 4);
            assert("include?"@.len() == 8);
        }
        assert(globals.builtin_installed(class, "push"@, BuiltinId::ArrayPush));
        assert("<<"@ != "include?"@) by {
            assert("<<"@.len() == 2);
            assert("include?"@.len() == 8);
        }
        assert(globals.builtin_installed(class, "<<"@, BuiltinId::ArrayPush));
        assert("pop"@ != "include?"@) by {
            assert("pop"@.len() == 3);
            assert("include?"@.len() == 8);
        }
        assert(globals.builtin_installed(class, "pop"@, BuiltinId::ArrayPop));
        assert("length"@ != "include?"@) by {
            assert("length"@.len() == 6);
            assert("include?"@.len() == 8);
        }
        assert(globals.builtin_installed(class, "length"@, BuiltinId::ArrayLength));
        assert("size"@ != "include?"@) by {
            assert("size"@.len() == 4);
            assert("include?"@.len() == 8);
        }
        assert(globals.builtin_installed(class, "size"@, BuiltinId::ArrayLength));
        assert("*"@ != "include?"@) by {
            assert("*"@.len() == 1);
            assert("include?"@.len() == 8);
        }
        assert(globals.builtin_installed(class, "*"@, BuiltinId::ArrayMul));
        assert("+"@ != "include?"@) by {
            assert("+"@.len() == 1);
            assert("include?"@.len() == 8);
        }
        assert(globals.builtin_installed(class, "+"@, BuiltinId::ArrayAdd));
        assert("-"@ != "include?"@) by {
            assert("-"@.len() == 1);
            assert("include?"@.len() == 8);
        }
        assert(globals.builtin_installed(class, "-"@, BuiltinId::ArraySub));
        assert("map"@ != "include?"@) by {
            assert("map"@.len() == 3);
            assert("include?"@.len() == 8);
        }
        assert(globals.builtin_installed(class, "map"@, BuiltinId::ArrayMap));
        assert("each"@ != "include?"@) by {
            assert("each"@.len() == 4);
            assert("include?"@.len() == 8);
        }
        assert(globals.builtin_installed(class, "each"@, BuiltinId::ArrayEach));
    }
    globals.add_builtin_instance_method(class, "reverse", BuiltinId::ArrayReverse);
    proof {
        assert("push"@ != "reverse"@) by {
            assert("push"@.len() == 4);
            assert("reverse"@.len() == 7);
        }
        assert(globals.builtin_installed(class, "push"@, BuiltinId::ArrayPush));
        assert("<<"@ != "reverse"@) by {
            assert("<<"@.len() == 2);
            assert("reverse"@.len() == 7);
        }
        assert(globals.builtin_installed(class, "<<"@, BuiltinId::ArrayPush));
        assert("pop"@ != "reverse"@) by {
            assert("pop"@.len() == 3);
            assert("reverse"@.len() == 7);
        }
        assert(globals.builtin_installed(class, "pop"@, BuiltinId::ArrayPop));
        assert("length"@ != "reverse"@) by {
            assert("length"@.len() == 6);
            assert("reverse"@.len() == 7);
        }
        assert(globals.builtin_installed(class, "length"@, BuiltinId::ArrayLength));
        assert("size"@ != "reverse"@) by {
            assert("size"@.len() == 4);
            assert("reverse"@.len() == 7);
        }
        assert(globals.builtin_installed(class, "size"@, BuiltinId::ArrayLength));
        assert("*"@ != "reverse"@) by {
            assert("*"@.len() == 1);
            assert("reverse"@.len() == 7);
        }
        assert(globals.builtin_installed(class, "*"@, BuiltinId::ArrayMul));
        assert("+"@ != "reverse"@) by {
            assert("+"@.len() == 1);
            assert("reverse"@.len() == 7);
        }
        assert(globals.builtin_installed(class, "+"@, BuiltinId::ArrayAdd));
        assert("-"@ != "reverse"@) by {
            assert("-"@.len() == 1);
            assert("reverse"@.len() == 7);
        }
        assert(globals.builtin_installed(class, "-"@, BuiltinId::ArraySub));
        assert("map"@ != "reverse"@) by {
            assert("map"@.len() == 3);
            assert("reverse"@.len() == 7);
        }
        assert(globals.builtin_installed(class, "map"@, BuiltinId::ArrayMap));
        assert("each"@ != "reverse"@) by {
            assert("each"@.len() == 4);
            assert("reverse"@.len() == 7);
        }
        assert(globals.builtin_installed(class, "each"@, BuiltinId::ArrayEach));
        assert("include?"@ != "reverse"@) by {
            assert("include?"@.len() == 8);
            assert("reverse"@.len() == 7);
        }
        assert(globals.builtin_installed(class, "include?"@, BuiltinId::ArrayInclude));
    }
    globals.add_builtin_instance_method(class, "reverse!", BuiltinId::ArrayReverseBang);
    proof {
        assert("push"@ != "reverse!"@) by {
            assert("push"@.len() == 4);
            assert("reverse!"@.len() == 8);
        }
        assert(globals.builtin_installed(class, "push"@, BuiltinId::ArrayPush));
        assert("<<"@ != "reverse!"@) by {
            assert("<<"@.len() == 2);
            assert("reverse!"@.len() == 8);
        }
        assert(globals.builtin_installed(class, "<<"@, BuiltinId::ArrayPush));
        assert("pop"@ != "reverse!"@) by {
            assert("pop"@.len() == 3);
            assert("reverse!"@.len() == 8);
        }
        assert(globals.builtin_installed(class, "pop"@, BuiltinId::ArrayPop));
        assert("length"@ != "reverse!"@) by {
            assert("length"@.len() == 6);
            assert("reverse!"@.len() == 8);
        }
        assert(globals.builtin_installed(class, "length"@, BuiltinId::ArrayLength));
        assert("size"@ != "reverse!"@) by {
            assert("size"@.len() == 4);
            assert("reverse!"@.len() == 8);
        }
        assert(globals.builtin_installed(class, "size"@, BuiltinId::ArrayLength));
        assert("*"@ != "reverse!"@) by {
            assert("*"@.len() == 1);
            assert("reverse!"@.len() == 8);
        }
        assert(globals.builtin_installed(class, "*"@, BuiltinId::ArrayMul));
        assert("+"@ != "reverse!"@) by {
            assert("+"@.len() == 1);
            assert("reverse!"@.len() == 8);
        }
        assert(globals.builtin_installed(class, "+"@, BuiltinId::ArrayAdd));
        assert("-"@ != "reverse!"@) by {
            assert("-"@.len() == 1);
            assert("reverse!"@.len() == 8);
        }
        assert(globals.builtin_installed(class, "-"@, BuiltinId::ArraySub));
        assert("map"@ != "reverse!"@) by {
            assert("map"@.len() == 3);
            assert("reverse!"@.len() == 8);
        }
        assert(globals.builtin_installed(class, "map"@, BuiltinId::ArrayMap));
        assert("each"@ != "reverse!"@) by {
            assert("each"@.len() == 4);
            assert("reverse!"@.len() == 8);
        }
        assert(globals.builtin_installed(class, "each"@, BuiltinId::ArrayEach));
        assert("include?"@ != "reverse!"@) by {
            assert("include?"@[0] == 'i');
            assert("reverse!"@[0] == 'r');
        }
        assert(globals.builtin_installed(class, "include?"@, BuiltinId::ArrayInclude));
        assert("reverse"@ != "reverse!"@) by {
            assert("reverse"@.len() == 7);
            assert("reverse!"@.len() == 8);
        }
        assert(globals.builtin_installed(class, "reverse"@, BuiltinId::ArrayReverse));
    }
    globals.add_builtin_instance_method(class, "transpose", BuiltinId::ArrayTranspose);
    proof {
        assert("push"@ != "transpose"@) by {
            assert("push"@.len() == 4);
            assert("transpose"@.len() == 9);
        }
        assert(globals.builtin_installed(class, "push"@, BuiltinId::ArrayPush));
        assert("<<"@ != "transpose"@) by {
            assert("<<"@.len() == 2);
            assert("transpose"@.len() == 9);
        }
        assert(globals.builtin_installed(class, "<<"@, BuiltinId::ArrayPush));
        assert("pop"@ != "transpose"@) by {
            assert("pop"@.len() == 3);
            assert("transpose"@.len() == 9);
        }
        assert(globals.builtin_installed(class, "pop"@, BuiltinId::ArrayPop));
        assert("length"@ != "transpose"@) by {
            assert("length"@.len() == 6);
            assert("transpose"@.len() == 9);
        }
        assert(globals.builtin_installed(class, "length"@, BuiltinId::ArrayLength));
        assert("size"@ != "transpose"@) by {
            assert("size"@.len() == 4);
            assert("transpose"@.len() == 9);
        }
        assert(globals.builtin_installed(class, "size"@, BuiltinId::ArrayLength));
        assert("*"@ != "transpose"@) by {
            assert("*"@.len() == 1);
            assert("transpose"@.len() == 9);
        }
        assert(globals.builtin_installed(class, "*"@, BuiltinId::ArrayMul));
        assert("+"@ != "transpose"@) by {
            assert("+"@.len() == 1);
            assert("transpose"@.len() == 9);
        }
        assert(globals.builtin_installed(class, "+"@, BuiltinId::ArrayAdd));
        assert("-"@ != "transpose"@) by {
            assert("-"@.len() == 1);
            assert("transpose"@.len() == 9);
        }
        assert(globals.builtin_installed(class, "-"@, BuiltinId::ArraySub));
        assert("map"@ != "transpose"@) by {
            assert("map"@.len() == 3);
            assert("transpose"@.len() == 9);
        }
        assert(globals.builtin_installed(class, "map"@, BuiltinId::ArrayMap));
        assert("each"@ != "transpose"@) by {
            assert("each"@.len() == 4);
            assert("transpose"@.len() == 9);
        }
        assert(globals.builtin_installed(class, "each"@, BuiltinId::ArrayEach));
        assert("include?"@ != "transpose"@) by {
            assert("include?"@.len() == 8);
            assert("transpose"@.len() == 9);
        }
        assert(globals.builtin_installed(class, "include?"@, BuiltinId::ArrayInclude));
        assert("reverse"@ != "transpose"@) by {
            assert("reverse"@.len() == 7);
            assert("transpose"@.len() == 9);
        }
        assert(globals.builtin_installed(class, "reverse"@, BuiltinId::ArrayReverse));
        assert("reverse!"@ != "transpose"@) by {
            assert("reverse!"@.len() == 8);
            assert("transpose"@.len() == 9);
        }
        assert(globals.builtin_installed(class, "reverse!"@, BuiltinId::ArrayReverseBang));
    }
    globals.add_builtin_class_method(obj, "new", BuiltinId::ArrayNew);
    obj
}

/// `Array.new`: no arguments make an empty array; one integer makes that
/// many nil slots; one array copies its elements; an integer and a value
/// make that many copies of the value.
pub fn array_new(vm: &mut VM, _receiver: PackedValue, args: VecArray, _block: Option<MethodRef>) -> (r:
    VMResult)
    requires
        old(vm).wf(),
        args.wf(),
        args_ok(old(vm).globals, args@),
    ensures
        final(vm).wf(),
        grows(old(vm).globals, final(vm).globals),
        same_builtins(old(vm).globals, final(vm).globals),
        result_ok(final(vm).globals, r),
        args@.len() > 2 ==> r matches Err(RubyError::Argument(_)),
        (args@.len() == 0 && old(vm).globals.spec_can_alloc()) ==> (r matches Ok(v) && (final(vm).globals.spec_as_array(v.0) matches Some(na) && final(vm).globals.arrays@[na.0 as int].elements@.len() == 0)),
        (args@.len() == 1 && old(vm).globals.spec_can_alloc() && (old(vm).globals.spec_as_fixnum(
            args@[0].0,
        ) matches Some(n) && 0 <= n <= 0x1000_0000)) ==> (r matches Ok(v) && (final(vm).globals.spec_as_array(v.0) matches Some(na) && {
            let elems = final(vm).globals.arrays@[na.0 as int].elements@;
            elems.len() == old(vm).globals.spec_as_fixnum(args@[0].0)->0 && forall|k: int|
                0 <= k < elems.len() ==> elems[k] == PackedValue::spec_nil()
        })),
        (args@.len() == 1 && old(vm).globals.spec_can_alloc() && old(vm).globals.spec_as_fixnum(
            args@[0].0,
        ) is None && old(vm).globals.spec_as_array(args@[0].0) is Some) ==> (r matches Ok(v) && (
        final(vm).globals.spec_as_array(v.0) matches Some(na) && final(vm).globals.arrays@[na.0 as int].elements@ == old(vm).globals.arrays@[(old(vm).globals.spec_as_array(args@[0].0)->0).0 as int].elements@)),
        (args@.len() == 2 && old(vm).globals.spec_can_alloc() && (old(vm).globals.spec_as_fixnum(
            args@[0].0,
        ) matches Some(n) && 0 <= n <= 0x1000_0000)) ==> (r matches Ok(v) && (final(vm).globals.spec_as_array(v.0) matches Some(na) && {
            let elems = final(vm).globals.arrays@[na.0 as int].elements@;
            elems.len() == old(vm).globals.spec_as_fixnum(args@[0].0)->0 && forall|k: int|
                0 <= k < elems.len() ==> elems[k] == args@[1]
        })),
{
    match vm.check_args_num(args.len(), 0, 2) {
        Ok(_) => {},
        Err(e) => {
            return Err(e);
        },
    }
    if !vm.globals.can_alloc() {
        return Err(vm.error_internal("the heap is full"));
    }
    let array_vec: Vec<PackedValue> = if args.len() == 0 {
        Vec::new()
    } else if args.len() == 1 {
        let a0 = args.get(0);
        match a0.as_fixnum(&vm.globals) {
            Some(num) => {
                if num >= 0 && num <= 0x1000_0000 {
                    let n = num as usize;
                    vec![PackedValue::nil(); n]
                } else {
                    return Err(vm.error_nomethod("Invalid arguments"));
                }
            },
            None => {
                match a0.as_array(&vm.globals) {
                    Some(aref) => vm.globals.elements_copy(aref),
                    None => {
                        return Err(vm.error_nomethod("Invalid arguments"));
                    },
                }
            },
        }
    } else {
        let a0 = args.get(0);
        match a0.as_fixnum(&vm.globals) {
            Some(num) => {
                if num >= 0 && num <= 0x1000_0000 {
                    let n = num as usize;
                    let elem = args.get(1);
                    vec![elem; n]
                } else {
                    return Err(vm.error_nomethod("Invalid arguments"));
                }
            },
            None => {
                return Err(vm.error_nomethod("Invalid arguments"));
            },
        }
    };
    let array = PackedValue::array_from(&mut vm.globals, array_vec);
    Ok(array)
}

/// `Array#push` / `Array#<<`: appends every argument in order and hands the
/// receiver back.
pub fn array_push(vm: &mut VM, receiver: PackedValue, args: VecArray, _block: Option<MethodRef>) -> (r:
    VMResult)
    requires
        old(vm).wf(),
        old(vm).globals.word_ok(receiver.0),
        args.wf(),
        args_ok(old(vm).globals, args@),
    ensures
        final(vm).wf(),
        grows(old(vm).globals, final(vm).globals),
        same_builtins(old(vm).globals, final(vm).globals),
        result_ok(final(vm).globals, r),
        match old(vm).globals.spec_as_array(receiver.0) {
            Some(aref) => r == Ok::<PackedValue, RubyError>(receiver) && final(vm).globals.arrays@[aref.0 as int].elements@ == old(vm).globals.arrays@[aref.0 as int].elements@ + args@,
            None => r is Err,
        },
{
    let aref = match receiver.as_array(&vm.globals) {
        Some(aref) => aref,
        None => {
            return Err(vm.error_nomethod("Receiver must be an array."));
        },
    };
    let mut elems = vm.globals.elements_copy(aref);
    let n = args.len();
    let mut i: usize = 0;
    while i < n
        invariant
            args.wf(),
            n == args@.len(),
            i <= n,
            elems@ == old(vm).globals.arrays@[aref.0 as int].elements@ + args@.take(i as int),
        decreases n - i,
    {
        elems.push(args.get(i));
        proof {
            assert(old(vm).globals.arrays@[aref.0 as int].elements@ + args@.take(i as int + 1)
                =~= (old(vm).globals.arrays@[aref.0 as int].elements@ + args@.take(i as int)).push(
                args@[i as int],
            ));
        }
        i += 1;
    }
    proof {
        assert(args@.take(n as int) =~= args@);
        assert forall|j: int| 0 <= j < elems@.len() implies vm.globals.word_ok(
            (#[trigger] elems@[j]).0,
        ) by {
            assert(vm.globals.aryinfo_ok(vm.globals.arrays@[aref.0 as int]));
            if j >= old(vm).globals.arrays@[aref.0 as int].elements@.len() {
                assert(elems@[j] == args@[j - old(vm).globals.arrays@[aref.0 as int].elements@.len()]);
            }
        }
    }
    vm.globals.replace_elements(aref, elems);
    Ok(receiver)
}

/// `Array#pop`: removes and returns the last element; an empty array pops
/// nil and stays empty.
pub fn array_pop(vm: &mut VM, receiver: PackedValue, _args: VecArray, _block: Option<MethodRef>) -> (r:
    VMResult)
    requires
        old(vm).wf(),
        old(vm).globals.word_ok(receiver.0),
    ensures
        final(vm).wf(),
        grows(old(vm).globals, final(vm).globals),
        same_builtins(old(vm).globals, final(vm).globals),
        result_ok(final(vm).globals, r),
        match old(vm).globals.spec_as_array(receiver.0) {
            Some(aref) => {
                let elems = old(vm).globals.arrays@[aref.0 as int].elements@;
                if elems.len() == 0 {
                    r == Ok::<PackedValue, RubyError>(PackedValue::spec_nil()) && final(vm).globals.arrays@[aref.0 as int].elements@ == elems
                } else {
                    r == Ok::<PackedValue, RubyError>(elems.last()) && final(vm).globals.arrays@[aref.0 as int].elements@ == elems.drop_last()
                }
            },
            None => r is Err,
        },
{
    let aref = match receiver.as_array(&vm.globals) {
        Some(aref) => aref,
        None => {
            return Err(vm.error_nomethod("Receiver must be an array."));
        },
    };
    let mut elems = vm.globals.elements_copy(aref);
    let res = match elems.pop() {
        Some(v) => v,
        None => PackedValue::nil(),
    };
    proof {
        assert forall|j: int| 0 <= j < elems@.len() implies vm.globals.word_ok(
            (#[trigger] elems@[j]).0,
        ) by {
            assert(vm.globals.aryinfo_ok(vm.globals.arrays@[aref.0 as int]));
        }
    }
    vm.globals.replace_elements(aref, elems);
    proof {
        if old(vm).globals.arrays@[aref.0 as int].elements@.len() > 0 {
            assert(vm.globals.arrays@[aref.0 as int].elements@ == old(vm).globals.arrays@[aref.0 as int].elements@.drop_last());
        }
    }
    Ok(res)
}

/// `Array#length` / `Array#size`: the element count, as an integer value.
pub fn array_length(vm: &mut VM, receiver: PackedValue, _args: VecArray, _block: Option<
    MethodRef,
>) -> (r: VMResult)
    requires
        old(vm).wf(),
        old(vm).globals.word_ok(receiver.0),
    ensures
        final(vm).wf(),
        grows(old(vm).globals, final(vm).globals),
        same_builtins(old(vm).globals, final(vm).globals),
        result_ok(final(vm).globals, r),
        match old(vm).globals.spec_as_array(receiver.0) {
            Some(aref) => old(vm).globals.spec_can_alloc() ==> (r matches Ok(v) && final(vm).globals.spec_unpack(v.0) == Value::FixNum(
                old(vm).globals.arrays@[aref.0 as int].elements@.len() as i64,
            )),
            None => r is Err,
        },
{
    let aref = match receiver.as_array(&vm.globals) {
        Some(aref) => aref,
        None => {
            return Err(vm.error_nomethod("Receiver must be an array."));
        },
    };
    if !vm.globals.can_alloc() {
        return Err(vm.error_internal("the heap is full"));
    }
    let len = vm.globals.arrays[aref.0].elements.len();
    let res = PackedValue::fixnum(&mut vm.globals, len as i64);
    Ok(res)
}

/// `Array#*`: the receiver's elements repeated a non-negative number of
/// times, as a new array.
pub fn array_mul(vm: &mut VM, receiver: PackedValue, args: VecArray, _block: Option<MethodRef>) -> (r:
    VMResult)
    requires
        old(vm).wf(),
        old(vm).globals.word_ok(receiver.0),
        args.wf(),
        args_ok(old(vm).globals, args@),
    ensures
        final(vm).wf(),
        grows(old(vm).globals, final(vm).globals),
        same_builtins(old(vm).globals, final(vm).globals),
        result_ok(final(vm).globals, r),
        (old(vm).globals.spec_as_array(receiver.0) is Some && args@.len() >= 1 && (old(vm).globals.spec_as_fixnum(args@[0].0) matches Some(num) && 0 <= num && num * old(vm).globals.arrays@[(old(vm).globals.spec_as_array(receiver.0)->0).0 as int].elements@.len()
            <= usize::MAX && old(vm).globals.spec_can_alloc())) ==> (r matches Ok(v) && (final(vm).globals.spec_as_array(v.0) matches Some(na) && final(vm).globals.arrays@[na.0 as int].elements@ == repeat_seq(
            old(vm).globals.arrays@[(old(vm).globals.spec_as_array(receiver.0)->0).0 as int].elements@,
            old(vm).globals.spec_as_fixnum(args@[0].0)->0 as nat,
        ))),
        (old(vm).globals.spec_as_array(receiver.0) is Some && args@.len() >= 1 && (old(vm).globals.spec_as_fixnum(args@[0].0) matches Some(num) && num < 0)) ==> r matches Err(
            RubyError::Argument(_),
        ),
        (old(vm).globals.spec_as_array(receiver.0) is Some && args@.len() >= 1 && old(vm).globals.spec_as_fixnum(args@[0].0) is None) ==> r matches Err(RubyError::NoMethod(_)),
{
    let aref = match receiver.as_array(&vm.globals) {
        Some(aref) => aref,
        None => {
            return Err(vm.error_nomethod("Receiver must be an array."));
        },
    };
    if args.len() < 1 {
        return Err(vm.error_argument("wrong number of arguments"));
    }
    let num = match args.get(0).as_fixnum(&vm.globals) {
        Some(num) => num,
        None => {
            return Err(vm.error_nomethod(" "));
        },
    };
    if num < 0 {
        return Err(vm.error_argument("Negative argument."));
    }
    if !vm.globals.can_alloc() {
        return Err(vm.error_internal("the heap is full"));
    }
    let src = vm.globals.elements_copy(aref);
    let m = src.len();
    let ghost s = vm.globals.arrays@[aref.0 as int].elements@;
    if m == 0 {
        // any repetition of an empty array is empty
        proof {
            lemma_repeat_seq_empty(s, num as nat);
        }
        let res = PackedValue::array_from(&mut vm.globals, Vec::new());
        return Ok(res);
    }
    // the result length must fit the address space: the one machine limit
    if (num as u64) > (usize::MAX as u64) {
        proof {
            let mi = m as int;
            let ni = num as int;
            assert(ni * mi >= ni) by (nonlinear_arith)
                requires
                    mi >= 1,
                    ni >= 1,
            ;
        }
        return Err(vm.error_argument("Argument too large."));
    }
    let n: usize = num as usize;
    if n.checked_mul(m).is_none() {
        proof {
            assert(num * s.len() > usize::MAX);
        }
        return Err(vm.error_argument("Argument too large."));
    }
    let mut v: Vec<PackedValue> = Vec::new();
    let mut k: usize = 0;
    while k < n
        invariant
            s == old(vm).globals.arrays@[aref.0 as int].elements@,
            src@ == s,
            m == s.len(),
            k <= n,
            v@ == repeat_seq(s, k as nat),
        decreases n - k,
    {
        let mut j: usize = 0;
        while j < m
            invariant
                src@ == s,
                m == s.len(),
                j <= m,
                k < n,
                v@ == repeat_seq(s, k as nat) + s.take(j as int),
            decreases m - j,
        {
            v.push(src[j]);
            proof {
                assert(repeat_seq(s, k as nat) + s.take(j as int + 1) =~= (repeat_seq(s, k as nat)
                    + s.take(j as int)).push(s[j as int]));
            }
            j += 1;
        }
        proof {
            assert(s.take(m as int) =~= s);
            assert(repeat_seq(s, (k + 1) as nat) =~= repeat_seq(s, k as nat) + s);
        }
        k += 1;
    }
    proof {
        assert forall|j: int| 0 <= j < v@.len() implies vm.globals.word_ok(
            (#[trigger] v@[j]).0,
        ) by {
            lemma_repeat_seq_ok(vm.globals, s, n as nat);
            assert(vm.globals.aryinfo_ok(vm.globals.arrays@[aref.0 as int]));
        }
    }
    let res = PackedValue::array_from(&mut vm.globals, v);
    Ok(res)
}

/// A repetition of the empty sequence is empty.
proof fn lemma_repeat_seq_empty(s: Seq<PackedValue>, n: nat)
    requires
        s.len() == 0,
    ensures
        repeat_seq(s, n) =~= Seq::<PackedValue>::empty(),
    decreases n,
{
    if n > 0 {
        lemma_repeat_seq_empty(s, (n - 1) as nat);
    }
}

/// Every element of a repetition comes from the repeated sequence.
proof fn lemma_repeat_seq_ok(g: Globals, s: Seq<PackedValue>, n: nat)
    requires
        forall|j: int| 0 <= j < s.len() ==> g.word_ok((#[trigger] s[j]).0),
    ensures
        forall|j: int| 0 <= j < repeat_seq(s, n).len() ==> g.word_ok((#[trigger] repeat_seq(s, n)[j]).0),
    decreases n,
{
    if n > 0 {
        lemma_repeat_seq_ok(g, s, (n - 1) as nat);
        let prev = repeat_seq(s, (n - 1) as nat);
        assert forall|j: int| 0 <= j < repeat_seq(s, n).len() implies g.word_ok(
            (#[trigger] repeat_seq(s, n)[j]).0,
        ) by {
            if j < prev.len() {
                assert(repeat_seq(s, n)[j] == prev[j]);
            } else {
                assert(repeat_seq(s, n)[j] == s[j - prev.len()]);
            }
        }
    }
}

/// `Array#+`: the concatenation, as a new array.
pub fn array_add(vm: &mut VM, receiver: PackedValue, args: VecArray, _block: Option<MethodRef>) -> (r:
    VMResult)
    requires
        old(vm).wf(),
        old(vm).globals.word_ok(receiver.0),
        args.wf(),
        args_ok(old(vm).globals, args@),
    ensures
        final(vm).wf(),
        grows(old(vm).globals, final(vm).globals),
        same_builtins(old(vm).globals, final(vm).globals),
        result_ok(final(vm).globals, r),
        (old(vm).globals.spec_as_array(receiver.0) matches Some(la) && args@.len() >= 1 && (old(vm).globals.spec_as_array(args@[0].0) matches Some(ra) && old(vm).globals.spec_can_alloc()))
            ==> (r matches Ok(v) && final(vm).globals.spec_as_array(v.0) matches Some(na) && final(vm).globals.arrays@[na.0 as int].elements@ == old(vm).globals.arrays@[(old(vm).globals.spec_as_array(receiver.0)->0).0 as int].elements@ + old(vm).globals.arrays@[(old(vm).globals.spec_as_array(args@[0].0)->0).0 as int].elements@),
{
    let lhs_ref = match receiver.as_array(&vm.globals) {
        Some(aref) => aref,
        None => {
            return Err(vm.error_nomethod("Receiver must be an array."));
        },
    };
    if args.len() < 1 {
        return Err(vm.error_argument("wrong number of arguments"));
    }
    let rhs_ref = match args.get(0).as_array(&vm.globals) {
        Some(aref) => aref,
        None => {
            return Err(vm.error_nomethod("An arg must be an array."));
        },
    };
    if !vm.globals.can_alloc() {
        return Err(vm.error_internal("the heap is full"));
    }
    let mut lhs = vm.globals.elements_copy(lhs_ref);
    let mut rhs = vm.globals.elements_copy(rhs_ref);
    lhs.append(&mut rhs);
    let res = PackedValue::array_from(&mut vm.globals, lhs);
    Ok(res)
}

/// Whether a value compares equal to some element of a sequence, at the
/// standard depth bound.
pub open spec fn any_equal(g: Globals, v: PackedValue, s: Seq<PackedValue>) -> bool {
    exists|j: int|
        0 <= j < s.len() && spec_val_equal(g, v.0, (#[trigger] s[j]).0, (g.arrays@.len() + 1) as nat)
}

/// Tests a value against every element of a vector.
fn contains_equal(vm: &VM, v: PackedValue, s: &Vec<PackedValue>) -> (r: bool)
    requires
        vm.wf(),
        vm.globals.word_ok(v.0),
        forall|j: int| 0 <= j < s@.len() ==> vm.globals.word_ok((#[trigger] s@[j]).0),
        vm.globals.arrays@.len() < usize::MAX,
    ensures
        r == any_equal(vm.globals, v, s@),
{
    let n = s.len();
    let mut j: usize = 0;
    while j < n
        invariant
            vm.wf(),
            vm.globals.word_ok(v.0),
            forall|k: int| 0 <= k < s@.len() ==> vm.globals.word_ok((#[trigger] s@[k]).0),
            vm.globals.arrays@.len() < usize::MAX,
            n == s@.len(),
            j <= n,
            forall|k: int|
                0 <= k < j ==> !spec_val_equal(
                    vm.globals,
                    v.0,
                    (#[trigger] s@[k]).0,
                    (vm.globals.arrays@.len() + 1) as nat,
                ),
        decreases n - j,
    {
        if v.equal(&vm.globals, s[j]) {
            return true;
        }
        j += 1;
    }
    false
}

/// `Array#-`: the receiver's elements with every element that compares
/// equal to some element of the argument array removed, in order.
pub fn array_sub(vm: &mut VM, receiver: PackedValue, args: VecArray, _block: Option<MethodRef>) -> (r:
    VMResult)
    requires
        old(vm).wf(),
        old(vm).globals.word_ok(receiver.0),
        args.wf(),
        args_ok(old(vm).globals, args@),
    ensures
        final(vm).wf(),
        grows(old(vm).globals, final(vm).globals),
        same_builtins(old(vm).globals, final(vm).globals),
        result_ok(final(vm).globals, r),
        (old(vm).globals.spec_as_array(receiver.0) matches Some(la) && args@.len() >= 1 && (old(vm).globals.spec_as_array(args@[0].0) matches Some(ra) && old(vm).globals.spec_can_alloc()
            && old(vm).globals.arrays@.len() < usize::MAX)) ==> (r matches Ok(v) && final(vm).globals.spec_as_array(v.0) matches Some(na) && final(vm).globals.arrays@[na.0 as int].elements@ == old(vm).globals.arrays@[(old(vm).globals.spec_as_array(receiver.0)->0).0 as int].elements@.filter(
            |x: PackedValue|
                !any_equal(
                    old(vm).globals,
                    x,
                    old(vm).globals.arrays@[(old(vm).globals.spec_as_array(args@[0].0)->0).0 as int].elements@,
                ),
        )),
{
    let lhs_ref = match receiver.as_array(&vm.globals) {
        Some(aref) => aref,
        None => {
            return Err(vm.error_nomethod("Receiver must be an array."));
        },
    };
    if args.len() < 1 {
        return Err(vm.error_argument("wrong number of arguments"));
    }
    let rhs_ref = match args.get(0).as_array(&vm.globals) {
        Some(aref) => aref,
        None => {
            return Err(vm.error_nomethod("An arg must be an array."));
        },
    };
    if !vm.globals.can_alloc() {
        return Err(vm.error_internal("the heap is full"));
    }
    if vm.globals.arrays.len() == usize::MAX {
        return Err(vm.error_internal("the array arena is full"));
    }
    let lhs = vm.globals.elements_copy(lhs_ref);
    let rhs = vm.globals.elements_copy(rhs_ref);
    let ghost keep = |x: PackedValue|
        !any_equal(vm.globals, x, vm.globals.arrays@[rhs_ref.0 as int].elements@);
    let n = lhs.len();
    let mut v: Vec<PackedValue> = Vec::new();
    let mut i: usize = 0;
    while i < n
        invariant
            vm.wf(),
            vm.globals == old(vm).globals,
            lhs_ref.0 < vm.globals.arrays@.len(),
            rhs_ref.0 < vm.globals.arrays@.len(),
            vm.globals.arrays@.len() < usize::MAX,
            lhs@ == vm.globals.arrays@[lhs_ref.0 as int].elements@,
            rhs@ == vm.globals.arrays@[rhs_ref.0 as int].elements@,
            forall|k: int| 0 <= k < lhs@.len() ==> vm.globals.word_ok((#[trigger] lhs@[k]).0),
            forall|k: int| 0 <= k < rhs@.len() ==> vm.globals.word_ok((#[trigger] rhs@[k]).0),
            keep == (|x: PackedValue|
                !any_equal(vm.globals, x, vm.globals.arrays@[rhs_ref.0 as int].elements@)),
            n == lhs@.len(),
            i <= n,
            v@ == lhs@.take(i as int).filter(keep),
        decreases n - i,
    {
        proof {
            reveal(Seq::filter);
            assert(lhs@.take(i as int + 1).drop_last() =~= lhs@.take(i as int));
            assert(lhs@.take(i as int + 1).last() == lhs@[i as int]);
        }
        if !contains_equal(vm, lhs[i], &rhs) {
            v.push(lhs[i]);
        }
        i += 1;
    }
    proof {
        assert(lhs@.take(n as int) =~= lhs@);
        assert forall|k: int| 0 <= k < v@.len() implies vm.globals.word_ok(
            (#[trigger] v@[k]).0,
        ) by {
            lemma_filter_elems(lhs@, keep);
        }
    }
    let res = PackedValue::array_from(&mut vm.globals, v);
    Ok(res)
}

/// Every element of a filtered sequence comes from the unfiltered one.
proof fn lemma_filter_elems(s: Seq<PackedValue>, pred: spec_fn(PackedValue) -> bool)
    ensures
        forall|k: int|
            0 <= k < s.filter(pred).len() ==> s.contains(#[trigger] s.filter(pred)[k]),
    decreases s.len(),
{
    reveal(Seq::filter);
    if s.len() > 0 {
        lemma_filter_elems(s.drop_last(), pred);
        assert forall|k: int| 0 <= k < s.filter(pred).len() implies s.contains(
            #[trigger] s.filter(pred)[k],
        ) by {
            if k < s.drop_last().filter(pred).len() {
                assert(s.drop_last().contains(s.drop_last().filter(pred)[k]));
                let w = choose|w: int|
                    0 <= w < s.drop_last().len() && s.drop_last()[w] == s.drop_last().filter(
                        pred,
                    )[k];
                assert(s[w] == s.filter(pred)[k]);
            } else {
                assert(s.filter(pred)[k] == s.last());
                assert(s[s.len() - 1] == s.last());
            }
        }
    }
}

/// `Array#include?`: whether some element compares equal to the argument.
pub fn array_include(vm: &mut VM, receiver: PackedValue, args: VecArray, _block: Option<
    MethodRef,
>) -> (r: VMResult)
    requires
        old(vm).wf(),
        old(vm).globals.word_ok(receiver.0),
        args.wf(),
        args_ok(old(vm).globals, args@),
    ensures
        final(vm).wf(),
        grows(old(vm).globals, final(vm).globals),
        same_builtins(old(vm).globals, final(vm).globals),
        result_ok(final(vm).globals, r),
        (old(vm).globals.spec_as_array(receiver.0) is Some && args@.len() >= 1 && old(vm).globals.arrays@.len() < usize::MAX) ==> r == Ok::<PackedValue, RubyError>(
            if any_equal(
                old(vm).globals,
                args@[0],
                old(vm).globals.arrays@[(old(vm).globals.spec_as_array(receiver.0)->0).0 as int].elements@,
            ) {
                PackedValue::spec_true()
            } else {
                PackedValue::spec_false()
            },
        ),
{
    let aref = match receiver.as_array(&vm.globals) {
        Some(aref) => aref,
        None => {
            return Err(vm.error_nomethod("Receiver must be an array."));
        },
    };
    if args.len() < 1 {
        return Err(vm.error_argument("wrong number of arguments"));
    }
    if vm.globals.arrays.len() == usize::MAX {
        return Err(vm.error_internal("the array arena is full"));
    }
    let target = args.get(0);
    let elems = vm.globals.elements_copy(aref);
    let res = contains_equal(vm, target, &elems);
    Ok(PackedValue::bool(res))
}

/// `Array#reverse`: the elements in reverse order, as a new array.
pub fn array_reverse(vm: &mut VM, receiver: PackedValue, args: VecArray, _block: Option<
    MethodRef,
>) -> (r: VMResult)
    requires
        old(vm).wf(),
        old(vm).globals.word_ok(receiver.0),
        args.wf(),
    ensures
        final(vm).wf(),
        grows(old(vm).globals, final(vm).globals),
        same_builtins(old(vm).globals, final(vm).globals),
        result_ok(final(vm).globals, r),
        (old(vm).globals.spec_as_array(receiver.0) is Some && args@.len() == 0 && old(vm).globals.spec_can_alloc()) ==> (r matches Ok(v) && (final(vm).globals.spec_as_array(v.0)
            matches Some(na) && {
            let olde = old(vm).globals.arrays@[(old(vm).globals.spec_as_array(receiver.0)->0).0 as int].elements@;
            let newe = final(vm).globals.arrays@[na.0 as int].elements@;
            newe.len() == olde.len() && forall|k: int|
                0 <= k < olde.len() ==> #[trigger] newe[k] == olde[olde.len() - 1 - k]
        })),
{
    match vm.check_args_num(args.len(), 0, 0) {
        Ok(_) => {},
        Err(e) => {
            return Err(e);
        },
    }
    let aref = match receiver.as_array(&vm.globals) {
        Some(aref) => aref,
        None => {
            return Err(vm.error_nomethod("Receiver must be an array."));
        },
    };
    if !vm.globals.can_alloc() {
        return Err(vm.error_internal("the heap is full"));
    }
    let res_vec = reversed_elements(&vm.globals, aref);
    let res = PackedValue::array_from(&mut vm.globals, res_vec);
    Ok(res)
}

/// A reversed copy of one array payload's elements.
fn reversed_elements(globals: &Globals, aref: ArrayRef) -> (r: Vec<PackedValue>)
    requires
        globals.wf0(),
        aref.0 < globals.arrays@.len(),
    ensures
        r@.len() == globals.arrays@[aref.0 as int].elements@.len(),
        forall|k: int|
            0 <= k < r@.len() ==> #[trigger] r@[k] == globals.arrays@[aref.0 as int].elements@[r@.len()
                - 1 - k],
        forall|k: int| 0 <= k < r@.len() ==> globals.word_ok((#[trigger] r@[k]).0),
{
    let n = globals.arrays[aref.0].elements.len();
    let mut out: Vec<PackedValue> = Vec::new();
    let mut i: usize = 0;
    while i < n
        invariant
            globals.wf0(),
            aref.0 < globals.arrays@.len(),
            n == globals.arrays@[aref.0 as int].elements@.len(),
            i <= n,
            out@.len() == i,
            forall|k: int|
                0 <= k < i ==> #[trigger] out@[k] == globals.arrays@[aref.0 as int].elements@[n - 1
                    - k],
        decreases n - i,
    {
        out.push(globals.arrays[aref.0].elements[n - 1 - i]);
        i += 1;
    }
    proof {
        assert forall|k: int| 0 <= k < out@.len() implies globals.word_ok(
            (#[trigger] out@[k]).0,
        ) by {
            assert(globals.aryinfo_ok(globals.arrays@[aref.0 as int]));
            assert(out@[k] == globals.arrays@[aref.0 as int].elements@[n - 1 - k]);
        }
    }
    out
}

/// `Array#reverse!`: reverses the receiver in place and hands it back.
pub fn array_reverse_(vm: &mut VM, receiver: PackedValue, args: VecArray, _block: Option<
    MethodRef,
>) -> (r: VMResult)
    requires
        old(vm).wf(),
        old(vm).globals.word_ok(receiver.0),
        args.wf(),
    ensures
        final(vm).wf(),
        grows(old(vm).globals, final(vm).globals),
        same_builtins(old(vm).globals, final(vm).globals),
        result_ok(final(vm).globals, r),
        (old(vm).globals.spec_as_array(receiver.0) is Some && args@.len() == 0) ==> (r == Ok::<
            PackedValue,
            RubyError,
        >(receiver) && {
            let aref0 = (old(vm).globals.spec_as_array(receiver.0)->0).0 as int;
            let olde = old(vm).globals.arrays@[aref0].elements@;
            let newe = final(vm).globals.arrays@[aref0].elements@;
            newe.len() == olde.len() && forall|k: int|
                0 <= k < olde.len() ==> #[trigger] newe[k] == olde[olde.len() - 1 - k]
        }),
{
    match vm.check_args_num(args.len(), 0, 0) {
        Ok(_) => {},
        Err(e) => {
            return Err(e);
        },
    }
    let aref = match receiver.as_array(&vm.globals) {
        Some(aref) => aref,
        None => {
            return Err(vm.error_nomethod("Receiver must be an array."));
        },
    };
    let res_vec = reversed_elements(&vm.globals, aref);
    vm.globals.replace_elements(aref, res_vec);
    Ok(receiver)
}

/// `Array#map`: invokes the block once per element, synchronously, over a
/// snapshot of the receiver taken before the first invocation, and collects
/// the results into a new array.  A break signalled by the block ends the
/// iteration and becomes the overall result; any other failure propagates
/// without processing further elements.
pub fn array_map<E: Evaluator>(
    vm: &mut VM,
    evaluator: &mut E,
    receiver: PackedValue,
    _args: VecArray,
    block: Option<MethodRef>,
) -> (r: VMResult)
    requires
        old(vm).wf(),
        old(vm).globals.word_ok(receiver.0),
        block_ok(old(vm).globals, block),
    ensures
        final(vm).wf(),
        grows(old(vm).globals, final(vm).globals),
        same_builtins(old(vm).globals, final(vm).globals),
        result_ok(final(vm).globals, r),
        old(vm).globals.spec_as_array(receiver.0) is None ==> r matches Err(
            RubyError::NoMethod(_),
        ),
        (old(vm).globals.spec_as_array(receiver.0) is Some && block is None) ==> r matches Err(
            RubyError::Argument(_),
        ),
        (old(vm).globals.spec_as_array(receiver.0) is Some && (block matches Some(m) && !(old(
            vm,
        ).globals.methods.spec_get(m) matches MethodInfo::RubyFunc { .. }))) ==> r matches Err(
            RubyError::Argument(_),
        ),
        (old(vm).globals.spec_as_array(receiver.0) matches Some(aref) && old(
            vm,
        ).globals.arrays@[aref.0 as int].elements@.len() == 0 && (block matches Some(m) && (old(
            vm,
        ).globals.methods.spec_get(m) matches MethodInfo::RubyFunc { .. }) && old(
            vm,
        ).globals.spec_can_alloc())) ==> (r matches Ok(v) && (final(vm).globals.spec_as_array(v.0)
            matches Some(na) && final(vm).globals.arrays@[na.0 as int].elements@.len() == 0)),
{
    let aref = match receiver.as_array(&vm.globals) {
        Some(aref) => aref,
        None => {
            return Err(vm.error_nomethod("Receiver must be an array."));
        },
    };
    let iseq = match block {
        Some(method) => {
            match vm.globals.methods.get_method(method) {
                MethodInfo::RubyFunc { iseq } => {
                    proof {
                        assert(vm.globals.methodinfo_ok(
                            vm.globals.methods.table@[method.0 as int],
                        ));
                    }
                    *iseq
                },
                _ => {
                    return Err(vm.error_argument("Currently, needs block."));
                },
            }
        },
        None => {
            return Err(vm.error_argument("Currently, needs block."));
        },
    };
    let elems = vm.globals.elements_copy(aref);
    let n = elems.len();
    if n == 0 {
        if !vm.globals.can_alloc() {
            return Err(vm.error_internal("the heap is full"));
        }
        let res_val = PackedValue::array_from(&mut vm.globals, Vec::new());
        return Ok(res_val);
    }
    let mut res: Vec<PackedValue> = Vec::new();
    let mut i: usize = 0;
    while i < n
        invariant
            vm.wf(),
            grows(old(vm).globals, vm.globals),
            same_builtins(old(vm).globals, vm.globals),
            old(vm).globals.spec_as_array(receiver.0) is Some,
            block is Some,
            old(vm).globals.methods.spec_get(block->0) matches MethodInfo::RubyFunc { .. },
            iseq.0 < vm.globals.iseqs@.len(),
            n == elems@.len(),
            n >= 1,
            i <= n,
            n == old(vm).globals.arrays@[(old(vm).globals.spec_as_array(
                receiver.0,
            )->0).0 as int].elements@.len(),
            forall|k: int| 0 <= k < n ==> vm.globals.word_ok((#[trigger] elems@[k]).0),
            forall|k: int| 0 <= k < res@.len() ==> vm.globals.word_ok((#[trigger] res@[k]).0),
        decreases n - i,
    {
        let arg = VecArray::new1(elems[i]);
        let act = bind_params(&vm.globals, iseq, receiver, &arg, None);
        let ghost gm = vm.globals;
        match classify_block_result(evaluator.eval(&mut vm.globals, iseq, act)) {
            BlockStep::Next(v) => {
                proof {
                    crate::vm::lemma_grows_word_ok(gm, vm.globals);
                }
                res.push(v);
            },
            BlockStep::Done(out) => {
                proof {
                    crate::vm::lemma_grows_word_ok(gm, vm.globals);
                }
                return out;
            },
        }
        i += 1;
    }
    if !vm.globals.can_alloc() {
        return Err(vm.error_internal("the heap is full"));
    }
    let res_val = PackedValue::array_from(&mut vm.globals, res);
    Ok(res_val)
}

/// `Array#each`: invokes the block once per element of a snapshot of the
/// receiver and hands the receiver back; a break signalled by the block
/// ends the iteration and becomes the overall result.
pub fn array_each<E: Evaluator>(
    vm: &mut VM,
    evaluator: &mut E,
    receiver: PackedValue,
    _args: VecArray,
    block: Option<MethodRef>,
) -> (r: VMResult)
    requires
        old(vm).wf(),
        old(vm).globals.word_ok(receiver.0),
        block_ok(old(vm).globals, block),
    ensures
        final(vm).wf(),
        grows(old(vm).globals, final(vm).globals),
        same_builtins(old(vm).globals, final(vm).globals),
        result_ok(final(vm).globals, r),
        old(vm).globals.spec_as_array(receiver.0) is None ==> r matches Err(
            RubyError::NoMethod(_),
        ),
        (old(vm).globals.spec_as_array(receiver.0) is Some && block is None) ==> r matches Err(
            RubyError::Argument(_),
        ),
        (old(vm).globals.spec_as_array(receiver.0) is Some && (block matches Some(m) && !(old(
            vm,
        ).globals.methods.spec_get(m) matches MethodInfo::RubyFunc { .. }))) ==> r matches Err(
            RubyError::Argument(_),
        ),
        (old(vm).globals.spec_as_array(receiver.0) matches Some(aref) && old(
            vm,
        ).globals.arrays@[aref.0 as int].elements@.len() == 0 && (block matches Some(m) && (old(
            vm,
        ).globals.methods.spec_get(m) matches MethodInfo::RubyFunc { .. }))) ==> r == Ok::<
            PackedValue,
            RubyError,
        >(receiver),
{
    let aref = match receiver.as_array(&vm.globals) {
        Some(aref) => aref,
        None => {
            return Err(vm.error_nomethod("Receiver must be an array."));
        },
    };
    let iseq = match block {
        Some(method) => {
            match vm.globals.methods.get_method(method) {
                MethodInfo::RubyFunc { iseq } => {
                    proof {
                        assert(vm.globals.methodinfo_ok(
                            vm.globals.methods.table@[method.0 as int],
                        ));
                    }
                    *iseq
                },
                _ => {
                    return Err(vm.error_argument("Currently, needs block."));
                },
            }
        },
        None => {
            return Err(vm.error_argument("Currently, needs block."));
        },
    };
    let elems = vm.globals.elements_copy(aref);
    let n = elems.len();
    if n == 0 {
        return Ok(receiver);
    }
    let mut i: usize = 0;
    while i < n
        invariant
            vm.wf(),
            grows(old(vm).globals, vm.globals),
            same_builtins(old(vm).globals, vm.globals),
            old(vm).globals.word_ok(receiver.0),
            old(vm).globals.spec_as_array(receiver.0) is Some,
            block is Some,
            old(vm).globals.methods.spec_get(block->0) matches MethodInfo::RubyFunc { .. },
            iseq.0 < vm.globals.iseqs@.len(),
            n == elems@.len(),
            n >= 1,
            i <= n,
            n == old(vm).globals.arrays@[(old(vm).globals.spec_as_array(
                receiver.0,
            )->0).0 as int].elements@.len(),
            forall|k: int| 0 <= k < n ==> vm.globals.word_ok((#[trigger] elems@[k]).0),
        decreases n - i,
    {
        let arg = VecArray::new1(elems[i]);
        let act = bind_params(&vm.globals, iseq, receiver, &arg, None);
        match classify_block_result(evaluator.eval(&mut vm.globals, iseq, act)) {
            BlockStep::Next(_) => {},
            BlockStep::Done(out) => {
                return out;
            },
        }
        i += 1;
    }
    proof {
        crate::vm::lemma_grows_word_ok(old(vm).globals, vm.globals);
    }
    Ok(receiver)
}

/// Every row of the receiver is itself an array.
pub open spec fn all_rows_arrays(g: Globals, rows: Seq<PackedValue>) -> bool {
    forall|j: int| 0 <= j < rows.len() ==> g.spec_as_array((#[trigger] rows[j]).0) is Some
}

/// The elements of one row of the receiver.
pub open spec fn row_elems(g: Globals, rows: Seq<PackedValue>, j: int) -> Seq<PackedValue> {
    g.arrays@[(g.spec_as_array(rows[j].0)->0).0 as int].elements@
}

/// `Array#transpose`: for a receiver of n rows that are arrays of one
/// common length m, the fresh m-by-n array of columns, with
/// `result[i][j] == receiver[j][i]`; an empty receiver transposes to an
/// empty array; a non-array row is a no-method error and differing row
/// lengths are an index error, in that order of checking.
pub fn array_transpose(vm: &mut VM, receiver: PackedValue, args: VecArray, _block: Option<
    MethodRef,
>) -> (r: VMResult)
    requires
        old(vm).wf(),
        old(vm).globals.word_ok(receiver.0),
        args.wf(),
    ensures
        final(vm).wf(),
        grows(old(vm).globals, final(vm).globals),
        same_builtins(old(vm).globals, final(vm).globals),
        result_ok(final(vm).globals, r),
        args@.len() != 0 ==> r matches Err(RubyError::Argument(_)),
        old(vm).globals.spec_as_array(receiver.0) is None && args@.len() == 0 ==> r matches Err(
            RubyError::NoMethod(_),
        ),
        (args@.len() == 0 && (old(vm).globals.spec_as_array(receiver.0) matches Some(aref) && {
            let rows = old(vm).globals.arrays@[aref.0 as int].elements@;
            rows.len() == 0 && old(vm).globals.spec_can_alloc()
        })) ==> (r matches Ok(v) && (final(vm).globals.spec_as_array(v.0) matches Some(na)
            && final(vm).globals.arrays@[na.0 as int].elements@.len() == 0)),
        (args@.len() == 0 && (old(vm).globals.spec_as_array(receiver.0) matches Some(aref) && {
            let rows = old(vm).globals.arrays@[aref.0 as int].elements@;
            rows.len() > 0 && !all_rows_arrays(old(vm).globals, rows)
        })) ==> r matches Err(RubyError::NoMethod(_)),
        (args@.len() == 0 && (old(vm).globals.spec_as_array(receiver.0) matches Some(aref) && {
            let rows = old(vm).globals.arrays@[aref.0 as int].elements@;
            rows.len() > 0 && all_rows_arrays(old(vm).globals, rows) && exists|j: int|
                0 <= j < rows.len() && (#[trigger] row_elems(old(vm).globals, rows, j)).len()
                    != row_elems(old(vm).globals, rows, 0).len()
        })) ==> r matches Err(RubyError::Index(_)),
        (args@.len() == 0 && (old(vm).globals.spec_as_array(receiver.0) matches Some(aref) && {
            let rows = old(vm).globals.arrays@[aref.0 as int].elements@;
            let m = row_elems(old(vm).globals, rows, 0).len();
            &&& rows.len() > 0
            &&& all_rows_arrays(old(vm).globals, rows)
            &&& forall|j: int|
                0 <= j < rows.len() ==> row_elems(old(vm).globals, rows, j).len() == m
            &&& old(vm).globals.heap@.len() + m + 1 <= crate::globals::HEAP_CAP
        })) ==> (r matches Ok(v) && (final(vm).globals.spec_as_array(v.0) matches Some(na) && {
            let rows = old(vm).globals.arrays@[(old(vm).globals.spec_as_array(
                receiver.0,
            )->0).0 as int].elements@;
            let m = row_elems(old(vm).globals, rows, 0).len();
            let cols = final(vm).globals.arrays@[na.0 as int].elements@;
            &&& cols.len() == m
            &&& forall|i: int|
                0 <= i < m ==> (final(vm).globals.spec_as_array((#[trigger] cols[i]).0)
                    matches Some(ci) && final(vm).globals.arrays@[ci.0 as int].elements@.len()
                    == rows.len() && (forall|j: int|
                    0 <= j < rows.len() ==> final(vm).globals.arrays@[ci.0 as int].elements@[j]
                        == row_elems(old(vm).globals, rows, j)[i]))
        })),
{
    match vm.check_args_num(args.len(), 0, 0) {
        Ok(_) => {},
        Err(e) => {
            return Err(e);
        },
    }
    let aref = match receiver.as_array(&vm.globals) {
        Some(aref) => aref,
        None => {
            return Err(vm.error_nomethod("Receiver must be an array."));
        },
    };
    let outer = vm.globals.elements_copy(aref);
    let rows = outer.len();
    let ghost grows0 = vm.globals.arrays@[aref.0 as int].elements@;
    if rows == 0 {
        if !vm.globals.can_alloc() {
            return Err(vm.error_internal("the heap is full"));
        }
        let res = PackedValue::array_from(&mut vm.globals, Vec::new());
        return Ok(res);
    }
    // every row must itself be an array; its elements are snapshotted
    let mut grid: Vec<Vec<PackedValue>> = Vec::new();
    let mut j: usize = 0;
    while j < rows
        invariant
            vm.wf(),
            vm.globals == old(vm).globals,
            args@.len() == 0,
            old(vm).globals.spec_as_array(receiver.0) == Some(aref),
            grows0 == vm.globals.arrays@[aref.0 as int].elements@,
            aref.0 < vm.globals.arrays@.len(),
            outer@ == grows0,
            rows == grows0.len(),
            rows >= 1,
            j <= rows,
            grid@.len() == j,
            forall|k: int| 0 <= k < rows ==> vm.globals.word_ok((#[trigger] outer@[k]).0),
            forall|k: int| 0 <= k < j ==> vm.globals.spec_as_array((#[trigger] grows0[k]).0)
                is Some,
            forall|k: int|
                0 <= k < j ==> (#[trigger] grid@[k])@ == row_elems(vm.globals, grows0, k),
            forall|k: int, l: int|
                0 <= k < j && 0 <= l < grid@[k]@.len() ==> vm.globals.word_ok(
                    (#[trigger] grid@[k]@[l]).0,
                ),
        decreases rows - j,
    {
        let row = outer[j];
        match row.as_array(&vm.globals) {
            Some(rref) => {
                grid.push(vm.globals.elements_copy(rref));
            },
            None => {
                proof {
                    assert(!all_rows_arrays(vm.globals, grows0)) by {
                        assert(vm.globals.spec_as_array(grows0[j as int].0) is None);
                    }
                }
                return Err(vm.error_nomethod("Each element of receiver must be an array."));
            },
        }
        j += 1;
    }
    // every row must have the first row's length
    let cols = grid[0].len();
    let mut j2: usize = 1;
    while j2 < rows
        invariant
            vm.wf(),
            vm.globals == old(vm).globals,
            args@.len() == 0,
            old(vm).globals.spec_as_array(receiver.0) == Some(aref),
            grows0 == vm.globals.arrays@[aref.0 as int].elements@,
            aref.0 < vm.globals.arrays@.len(),
            rows == grows0.len(),
            rows >= 1,
            1 <= j2 <= rows,
            grid@.len() == rows,
            cols == grid@[0]@.len(),
            forall|k: int| 0 <= k < rows ==> vm.globals.spec_as_array((#[trigger] grows0[k]).0)
                is Some,
            forall|k: int|
                0 <= k < rows ==> (#[trigger] grid@[k])@ == row_elems(vm.globals, grows0, k),
            forall|k: int, l: int|
                0 <= k < rows && 0 <= l < grid@[k]@.len() ==> vm.globals.word_ok(
                    (#[trigger] grid@[k]@[l]).0,
                ),
            forall|k: int| 0 <= k < j2 ==> (#[trigger] grid@[k])@.len() == cols,
        decreases rows - j2,
    {
        if grid[j2].len() != cols {
            proof {
                assert(row_elems(vm.globals, grows0, j2 as int).len() != row_elems(
                    vm.globals,
                    grows0,
                    0,
                ).len());
            }
            return Err(vm.error_index("Element size differs."));
        }
        j2 += 1;
    }
    proof {
        assert forall|jj: int| 0 <= jj < rows implies (#[trigger] row_elems(
            vm.globals,
            grows0,
            jj,
        )).len() == cols by {
            assert(grid@[jj]@ == row_elems(vm.globals, grows0, jj));
            assert(grid@[jj]@.len() == cols);
        }
    }
    if cols >= crate::globals::HEAP_CAP - vm.globals.heap.len() {
        return Err(vm.error_internal("the heap is full"));
    }
    // assemble the columns
    let ghost g0 = vm.globals;
    let mut trans: Vec<PackedValue> = Vec::new();
    let mut i: usize = 0;
    while i < cols
        invariant
            vm.wf(),
            grows(old(vm).globals, vm.globals),
            same_builtins(old(vm).globals, vm.globals),
            g0 == old(vm).globals,
            args@.len() == 0,
            old(vm).globals.spec_as_array(receiver.0) == Some(aref),
            grows0 == g0.arrays@[aref.0 as int].elements@,
            rows == grows0.len(),
            rows >= 1,
            i <= cols,
            grid@.len() == rows,
            forall|k: int|
                0 <= k < rows ==> (#[trigger] grid@[k])@ == row_elems(g0, grows0, k),
            forall|k: int| 0 <= k < rows ==> (#[trigger] grid@[k])@.len() == cols,
            forall|jj: int|
                0 <= jj < rows ==> (#[trigger] row_elems(g0, grows0, jj)).len() == cols,
            forall|k: int, l: int|
                0 <= k < rows && 0 <= l < grid@[k]@.len() ==> g0.word_ok(
                    (#[trigger] grid@[k]@[l]).0,
                ),
            vm.globals.heap@.len() == g0.heap@.len() + i,
            g0.heap@.len() + cols < crate::globals::HEAP_CAP,
            trans@.len() == i,
            forall|k: int| 0 <= k < i ==> vm.globals.word_ok((#[trigger] trans@[k]).0),
            forall|k: int|
                0 <= k < i ==> (vm.globals.spec_as_array((#[trigger] trans@[k]).0) matches Some(
                    ck,
                ) && vm.globals.arrays@[ck.0 as int].elements@.len() == rows && (forall|l: int|
                    0 <= l < rows ==> vm.globals.arrays@[ck.0 as int].elements@[l] == row_elems(
                        g0,
                        grows0,
                        l,
                    )[k])),
        decreases cols - i,
    {
        let mut col: Vec<PackedValue> = Vec::new();
        let mut k: usize = 0;
        while k < rows
            invariant
                vm.wf(),
                rows == grows0.len(),
                i < cols,
                k <= rows,
                grid@.len() == rows,
                forall|k2: int|
                    0 <= k2 < rows ==> (#[trigger] grid@[k2])@ == row_elems(g0, grows0, k2),
                forall|k2: int| 0 <= k2 < rows ==> (#[trigger] grid@[k2])@.len() == cols,
                forall|k2: int, l: int|
                    0 <= k2 < rows && 0 <= l < grid@[k2]@.len() ==> g0.word_ok(
                        (#[trigger] grid@[k2]@[l]).0,
                    ),
                grows(old(vm).globals, vm.globals),
                g0 == old(vm).globals,
                col@.len() == k,
                forall|l: int| 0 <= l < k ==> col@[l] == row_elems(g0, grows0, l)[i as int],
                forall|l: int| 0 <= l < k ==> g0.word_ok((#[trigger] col@[l]).0),
            decreases rows - k,
        {
            col.push(grid[k][i]);
            k += 1;
        }
        proof {
            crate::vm::lemma_grows_word_ok(g0, vm.globals);
        }
        let ary = PackedValue::array_from(&mut vm.globals, col);
        trans.push(ary);
        i += 1;
    }
    proof {
        crate::vm::lemma_grows_word_ok(g0, vm.globals);
    }
    let res = PackedValue::array_from(&mut vm.globals, trans);
    Ok(res)
}

} // verus!
