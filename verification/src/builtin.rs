//! The computational global built-ins, installed on the base class so that
//! every receiver can be sent them.  The printing, file-loading and
//! chance-drawing built-ins are I/O at the edge and live outside the
//! verified core.

use vstd::prelude::*;
use crate::globals::{same_builtins, Globals};
use crate::ident::IdentId;
use crate::method::{BuiltinId, MethodRef};
use crate::value::{PackedValue, Value, VecArray};
use crate::vm::{args_ok, grows, resolve_instance_method, result_ok, RubyError, VM, VMResult};

verus! {

pub struct Builtin {}

impl Builtin {
    /// Installs the computational built-ins on the base class.
    pub fn init_builtin(globals: &mut Globals)
        requires
            old(globals).wf(),
            old(globals).idents.names@.len() + 6 < 0x8000_0000,
        ensures
            final(globals).wf(),
            final(globals).heap@.len() == old(globals).heap@.len(),
            final(globals).idents.names@.len() <= old(globals).idents.names@.len() + 6,
            crate::vm::grows(*old(globals), *final(globals)),
            same_builtins(*old(globals), *final(globals)),
            final(globals).builtin_installed(
                old(globals).word_cref(old(globals).object.0),
                "is_a?"@,
                BuiltinId::ObjIsA,
            ),
            final(globals).builtin_installed(
                old(globals).word_cref(old(globals).object.0),
                "method"@,
                BuiltinId::ObjMethod,
            ),
            final(globals).builtin_installed(
                old(globals).word_cref(old(globals).object.0),
                "Integer"@,
                BuiltinId::ObjInteger,
            ),
    {
        proof {
            reveal_strlit("is_a?");
            reveal_strlit("method");
            reveal_strlit("Integer");
        }
        let ocref = globals.object.as_class(globals);
        globals.add_builtin_instance_method(ocref, "is_a?", BuiltinId::ObjIsA);
        proof {
            assert("is_a?"@ != "method"@) by {
                assert("is_a?"@.len() == 5);
                assert("method"@.len() == 6);
            }
        }
        globals.add_builtin_instance_method(ocref, "method", BuiltinId::ObjMethod);
        proof {
            assert(globals.builtin_installed(ocref, "is_a?"@, BuiltinId::ObjIsA));
            assert("is_a?"@ != "Integer"@) by {
                assert("is_a?"@.len() == 5);
                assert("Integer"@.len() == 7);
            }
            assert("method"@ != "Integer"@) by {
                assert("method"@.len() == 6);
                assert("Integer"@.len() == 7);
            }
        }
        globals.add_builtin_instance_method(ocref, "Integer", BuiltinId::ObjInteger);
        proof {
            assert(globals.builtin_installed(ocref, "is_a?"@, BuiltinId::ObjIsA));
            assert(globals.builtin_installed(ocref, "method"@, BuiltinId::ObjMethod));
        }
    }
}

/// Whether a walk up the superclass chain from a class value reaches the
/// target value, by identity.
pub open spec fn chain_contains(g: Globals, w: u64, target: u64) -> bool
    decreases g.word_cref(w).0,
{
    if !g.is_class_word(w) {
        false
    } else if w == target {
        true
    } else {
        let c = g.word_cref(w);
        match g.spec_superclass_val(c) {
            Some(sv) => g.is_class_word(sv.0) && g.word_cref(sv.0).0 < c.0 && chain_contains(
                g,
                sv.0,
                target,
            ),
            None => false,
        }
    }
}

/// Walks the superclass chain from a class value, comparing by identity.
fn class_chain_contains(globals: &Globals, start: PackedValue, target: PackedValue) -> (r: bool)
    requires
        globals.wf0(),
        globals.word_ok(start.0),
        globals.is_class_word(start.0),
    ensures
        r == chain_contains(*globals, start.0, target.0),
{
    let mut cur = start;
    loop
        invariant_except_break
            globals.is_class_word(cur.0),
            globals.word_ok(cur.0),
            chain_contains(*globals, start.0, target.0) == chain_contains(
                *globals,
                cur.0,
                target.0,
            ),
        invariant
            globals.wf0(),
        ensures
            true,
        decreases globals.word_cref(cur.0).0,
    {
        if cur.id() == target.id() {
            proof {
                assert(chain_contains(*globals, cur.0, target.0));
            }
            return true;
        }
        match crate::reflect::walk_superclass(globals, cur) {
            Some(sv) => {
                cur = sv;
            },
            None => {
                proof {
                    assert(!chain_contains(*globals, cur.0, target.0));
                }
                return false;
            },
        }
    }
}

/// `is_a?`: whether the receiver's class, or one of its superclasses, is
/// the argument, by identity.
pub fn builtin_isa(vm: &mut VM, receiver: PackedValue, args: VecArray, _block: Option<MethodRef>) -> (r:
    VMResult)
    requires
        old(vm).wf(),
        old(vm).globals.word_ok(receiver.0),
        args.wf(),
        args_ok(old(vm).globals, args@),
    ensures
        final(vm).wf(),
        grows(old(vm).globals, final(vm).globals),
        same_builtins(old(vm).globals, final(vm).globals),
        result_ok(final(vm).globals, r),
        (args@.len() == 1 && old(vm).globals.is_class_word(
            old(vm).globals.spec_class_object_of(receiver.0).0,
        )) ==> r == Ok::<PackedValue, RubyError>(
            if chain_contains(
                old(vm).globals,
                old(vm).globals.spec_class_object_of(receiver.0).0,
                args@[0].0,
            ) {
                PackedValue::spec_true()
            } else {
                PackedValue::spec_false()
            },
        ),
{
    match vm.check_args_num(args.len(), 1, 1) {
        Ok(_) => {},
        Err(e) => {
            return Err(e);
        },
    }
    let recv_class = receiver.get_class_object(&vm.globals);
    match recv_class.as_module(&vm.globals) {
        Some(_) => {},
        None => {
            return Err(vm.error_internal("Illegal value in superclass chain."));
        },
    }
    let res = class_chain_contains(&vm.globals, recv_class, args.get(0));
    Ok(PackedValue::bool(res))
}

/// `method`: binds the named method of the receiver's class, snapshotting
/// the record handle resolution finds right now.
pub fn builtin_method(vm: &mut VM, receiver: PackedValue, args: VecArray, _block: Option<
    MethodRef,
>) -> (r: VMResult)
    requires
        old(vm).wf(),
        old(vm).globals.word_ok(receiver.0),
        args.wf(),
        args_ok(old(vm).globals, args@),
    ensures
        final(vm).wf(),
        grows(old(vm).globals, final(vm).globals),
        same_builtins(old(vm).globals, final(vm).globals),
        result_ok(final(vm).globals, r),
        args@.len() == 1 && !crate::value::word_is_symbol(args@[0].0) ==> r matches Err(
            RubyError::Type(_),
        ),
        (args@.len() == 1 && crate::value::word_is_symbol(args@[0].0) && old(
            vm,
        ).globals.is_class_word(old(vm).globals.spec_class_object_of(receiver.0).0) && old(
            vm,
        ).globals.spec_can_alloc()) ==> {
            let name = IdentId(crate::value::decode_symbol(args@[0].0));
            match crate::vm::spec_resolve(
                old(vm).globals,
                old(vm).globals.word_cref(old(vm).globals.spec_class_object_of(receiver.0).0),
                name,
            ) {
                Some(m) => r matches Ok(v) && (final(vm).globals.spec_as_method(v.0)
                    matches Some(mo) && final(vm).globals.methodobjs@[mo.0 as int] == (
                crate::object::MethodObjInfo { name, receiver, method: m })),
                None => r matches Err(RubyError::NoMethod(_)),
            }
        },
{
    match vm.check_args_num(args.len(), 1, 1) {
        Ok(_) => {},
        Err(e) => {
            return Err(e);
        },
    }
    let a0 = args.get(0);
    let name = match a0.as_symbol() {
        Some(id) => id,
        None => {
            return Err(vm.error_type("An argument must be a Symbol."));
        },
    };
    let recv_class = receiver.get_class_object_for_method(&vm.globals);
    let cref = match recv_class.as_module(&vm.globals) {
        Some(cref) => cref,
        None => {
            return Err(vm.error_internal("Illegal value in superclass chain."));
        },
    };
    let mref = match resolve_instance_method(&vm.globals, cref, name) {
        Some(m) => m,
        None => {
            return Err(vm.error_nomethod("no method found."));
        },
    };
    if !vm.globals.can_alloc() {
        return Err(vm.error_internal("the heap is full"));
    }
    let val = PackedValue::method(&mut vm.globals, name, receiver, mref);
    Ok(val)
}

// ---------------------------------------------------------------------------
// Integer conversion.
// ---------------------------------------------------------------------------

/// The numeric value of a digit sequence, most significant first.
pub open spec fn digits_val(s: Seq<char>) -> int
    decreases s.len(),
{
    if s.len() == 0 {
        0
    } else {
        digits_val(s.drop_last()) * 10 + (s.last() as u32 - 48)
    }
}

/// Every character is a decimal digit.
pub open spec fn all_digits(s: Seq<char>) -> bool {
    forall|j: int| 0 <= j < s.len() ==> 48 <= (#[trigger] s[j]) as u32 <= 57
}

/// The integer a text denotes under strict conversion: an optional minus
/// sign followed by one or more decimal digits, within the 64-bit signed
/// range; anything else, including an out-of-range magnitude, is absent.
pub open spec fn spec_parse_int(s: Seq<char>) -> Option<i64> {
    let neg = s.len() > 0 && s[0] == '-';
    let ds = if neg {
        s.drop_first()
    } else {
        s
    };
    if ds.len() == 0 || !all_digits(ds) {
        None
    } else if neg && digits_val(ds) <= 0x8000_0000_0000_0000 {
        Some((0 - digits_val(ds)) as i64)
    } else if !neg && digits_val(ds) <= 0x7fff_ffff_ffff_ffff {
        Some(digits_val(ds) as i64)
    } else {
        None
    }
}

/// A digit sequence's value only grows as digits are appended.
proof fn lemma_digits_val_grows(s: Seq<char>, i: int)
    requires
        0 <= i <= s.len(),
        all_digits(s),
    ensures
        digits_val(s) >= digits_val(s.take(i)),
        digits_val(s) >= 0,
        digits_val(s.take(i)) >= 0,
    decreases s.len() - i,
{
    if i == s.len() {
        assert(s.take(i) =~= s);
        lemma_digits_val_nonneg(s);
    } else {
        lemma_digits_val_grows(s, i + 1);
        assert(s.take(i + 1).drop_last() =~= s.take(i));
        assert(s.take(i + 1).last() == s[i]);
        lemma_digits_val_nonneg(s.take(i));
    }
}

proof fn lemma_digits_val_nonneg(s: Seq<char>)
    requires
        all_digits(s),
    ensures
        digits_val(s) >= 0,
    decreases s.len(),
{
    if s.len() > 0 {
        assert(all_digits(s.drop_last()));
        lemma_digits_val_nonneg(s.drop_last());
    }
}

/// Parses a text as a strict integer.
pub fn parse_int(chars: &Vec<char>) -> (r: Option<i64>)
    ensures
        r == spec_parse_int(chars@),
{
    let n = chars.len();
    if n == 0 {
        return None;
    }
    let neg = chars[0] == '-';
    let start: usize = if neg {
        1
    } else {
        0
    };
    if start >= n {
        return None;
    }
    let ghost ds = if neg {
        chars@.drop_first()
    } else {
        chars@
    };
    // the magnitude accumulates negatively, so that the most negative
    // integer parses too
    let mut acc: i64 = 0;
    let mut i: usize = start;
    while i < n
        invariant
            n == chars@.len(),
            start <= i <= n,
            start == if neg {
                1int
            } else {
                0int
            },
            neg == (chars@.len() > 0 && chars@[0] == '-'),
            ds == if neg {
                chars@.drop_first()
            } else {
                chars@
            },
            ds.len() == n - start,
            all_digits(ds.take(i - start)),
            acc == 0 - digits_val(ds.take(i - start)),
            acc <= 0,
        decreases n - i,
    {
        let c = chars[i];
        let u = c as u32;
        if !(48 <= u && u <= 57) {
            proof {
                assert(ds[i - start] == chars@[i as int]);
                assert(!all_digits(ds));
            }
            return None;
        }
        let d = (u - 48) as i64;
        let shifted = match acc.checked_mul(10) {
            Some(v) => v,
            None => {
                proof {
                    lemma_parse_overflow(chars@, ds, neg, i - start);
                }
                return None;
            },
        };
        acc = match shifted.checked_sub(d) {
            Some(v) => v,
            None => {
                proof {
                    lemma_parse_overflow(chars@, ds, neg, i - start);
                }
                return None;
            },
        };
        proof {
            assert(ds.take(i - start + 1).drop_last() =~= ds.take(i - start));
            assert(ds.take(i - start + 1).last() == ds[i - start]);
            assert(ds[i - start] == chars@[i as int]);
        }
        i += 1;
    }
    proof {
        assert(ds.take(n - start) =~= ds);
    }
    if neg {
        Some(acc)
    } else {
        if acc == i64::MIN {
            return None;
        }
        Some(-acc)
    }
}

/// Once the running magnitude no longer fits, no longer parse: the whole
/// sequence's value exceeds the 64-bit signed range in either sign.
proof fn lemma_parse_overflow(chars: Seq<char>, ds: Seq<char>, neg: bool, k: int)
    requires
        neg == (chars.len() > 0 && chars[0] == '-'),
        ds == if neg {
            chars.drop_first()
        } else {
            chars
        },
        0 <= k < ds.len(),
        all_digits(ds.take(k)),
        48 <= ds[k] as u32 <= 57,
        digits_val(ds.take(k)) * 10 + (ds[k] as u32 - 48) > 0x8000_0000_0000_0000,
    ensures
        spec_parse_int(chars) is None,
{
    if all_digits(ds) {
        assert(ds.take(k + 1).drop_last() =~= ds.take(k));
        assert(ds.take(k + 1).last() == ds[k]);
        lemma_digits_val_grows(ds, k + 1);
        assert(digits_val(ds) >= digits_val(ds.take(k + 1)));
        assert(digits_val(ds) > 0x8000_0000_0000_0000);
    }
}

/// `Integer`: converts an integer to itself and a strict digit text to
/// the integer it denotes; everything else is a type error.  (The
/// floating-point arm of the conversion lives outside the verified core.)
pub fn builtin_integer(vm: &mut VM, _receiver: PackedValue, args: VecArray, _block: Option<
    MethodRef,
>) -> (r: VMResult)
    requires
        old(vm).wf(),
        args.wf(),
        args_ok(old(vm).globals, args@),
    ensures
        final(vm).wf(),
        grows(old(vm).globals, final(vm).globals),
        same_builtins(old(vm).globals, final(vm).globals),
        result_ok(final(vm).globals, r),
        args@.len() != 1 ==> r matches Err(RubyError::Argument(_)),
        (args@.len() == 1 && (old(vm).globals.spec_as_fixnum(args@[0].0) matches Some(num) && old(
            vm,
        ).globals.spec_can_alloc())) ==> (r matches Ok(v) && final(vm).globals.spec_unpack(v.0)
            == Value::FixNum(old(vm).globals.spec_as_fixnum(args@[0].0)->0)),
        (args@.len() == 1 && old(vm).globals.spec_as_fixnum(args@[0].0) is None
            && !crate::value::word_is_inline(args@[0].0) && (old(vm).globals.heap_at(args@[0].0)
            matches Value::String(_)) && old(vm).globals.spec_can_alloc()) ==> (match spec_parse_int(
            old(vm).globals.heap_at(args@[0].0)->String_0@,
        ) {
            Some(num) => r matches Ok(v) && final(vm).globals.spec_unpack(v.0) == Value::FixNum(
                num,
            ),
            None => r matches Err(RubyError::Type(_)),
        }),
{
    match vm.check_args_num(args.len(), 1, 1) {
        Ok(_) => {},
        Err(e) => {
            return Err(e);
        },
    }
    let a0 = args.get(0);
    if !vm.globals.can_alloc() {
        return Err(vm.error_internal("the heap is full"));
    }
    match a0.as_fixnum(&vm.globals) {
        Some(num) => {
            let v = PackedValue::fixnum(&mut vm.globals, num);
            return Ok(v);
        },
        None => {},
    }
    match a0.as_string(&vm.globals) {
        Some(text) => {
            let cs = crate::string::chars_of(text.as_str());
            match parse_int(&cs) {
                Some(num) => {
                    let v = PackedValue::fixnum(&mut vm.globals, num);
                    Ok(v)
                },
                None => Err(vm.error_type("Invalid value for conversion to an integer.")),
            }
        },
        None => Err(vm.error_type("Cannot convert the value to an integer.")),
    }
}

} // verus!
