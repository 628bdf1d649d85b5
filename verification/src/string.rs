//! The native string methods.
//!
//! Pattern substitution is delegated to the `regex` crate behind trusted
//! wrappers whose results are named, pure functions of the arguments; the
//! rest is verified string logic.

use vstd::prelude::*;
use vstd::string::StringExecFns;
use crate::globals::{same_builtins, Globals};
use crate::method::{BuiltinId, MethodRef};
use crate::value::{PackedValue, Value, VecArray};
use crate::vm::{args_ok, grows, result_ok, RubyError, VM, VMResult};

verus! {

/// Installs the native string methods on the String class and hands back
/// its class value.
pub fn init_string(globals: &mut Globals) -> (obj: PackedValue)
    requires
        old(globals).wf(),
        old(globals).idents.names@.len() + 10 < 0x8000_0000,
    ensures
        final(globals).wf(),
        final(globals).is_class_word(obj.0),
        final(globals).idents.names@.len() <= old(globals).idents.names@.len() + 6,
        final(globals).heap@.len() == old(globals).heap@.len(),
        crate::vm::grows(*old(globals), *final(globals)),
        same_builtins(*old(globals), *final(globals)),
        obj == old(globals).string,
        final(globals).builtin_installed(
            old(globals).word_cref(old(globals).string.0),
            "start_with?"@,
            BuiltinId::StringStartWith,
        ),
        final(globals).builtin_installed(
            old(globals).word_cref(old(globals).string.0),
            "to_sym"@,
            BuiltinId::StringToSym,
        ),
        final(globals).builtin_installed(
            old(globals).word_cref(old(globals).string.0),
            "intern"@,
            BuiltinId::StringToSym,
        ),
        final(globals).builtin_installed(
            old(globals).word_cref(old(globals).string.0),
            "gsub"@,
            BuiltinId::StringGsub,
        ),
{
    proof {
        reveal_strlit("start_with?");
        reveal_strlit("to_sym");
        reveal_strlit("intern");
        reveal_strlit("gsub");
    }
    let obj = globals.string;
    let class = obj.as_class(globals);
    globals.add_builtin_instance_method(class, "start_with?", BuiltinId::StringStartWith);
    globals.add_builtin_instance_method(class, "to_sym", BuiltinId::StringToSym);
    proof {
        assert("start_with?"@ != "to_sym"@) by {
            assert("start_with?"@.len() == 11);
            assert("to_sym"@.len() == 6);
        }
        assert(globals.builtin_installed(class, "start_with?"@, BuiltinId::StringStartWith));
    }
    globals.add_builtin_instance_method(class, "intern", BuiltinId::StringToSym);
    proof {
        assert("start_with?"@ != "intern"@) by {
            assert("start_with?"@.len() == 11);
            assert("intern"@.len() == 6);
        }
        assert(globals.builtin_installed(class, "start_with?"@, BuiltinId::StringStartWith));
        assert("to_sym"@ != "intern"@) by {
            assert("to_sym"@[0] == 't');
            assert("intern"@[0] == 'i');
        }
        assert(globals.builtin_installed(class, "to_sym"@, BuiltinId::StringToSym));
    }
    globals.add_builtin_instance_method(class, "gsub", BuiltinId::StringGsub);
    proof {
        assert("start_with?"@ != "gsub"@) by {
            assert("start_with?"@.len() == 11);
            assert("gsub"@.len() == 4);
        }
        assert(globals.builtin_installed(class, "start_with?"@, BuiltinId::StringStartWith));
        assert("to_sym"@ != "gsub"@) by {
            assert("to_sym"@.len() == 6);
            assert("gsub"@.len() == 4);
        }
        assert(globals.builtin_installed(class, "to_sym"@, BuiltinId::StringToSym));
        assert("intern"@ != "gsub"@) by {
            assert("intern"@.len() == 6);
            assert("gsub"@.len() == 4);
        }
        assert(globals.builtin_installed(class, "intern"@, BuiltinId::StringToSym));
    }
    obj
}

/// The characters of a text, as a vector.
pub fn chars_of(s: &str) -> (r: Vec<char>)
    ensures
        r@ == s@,
{
    let mut out: Vec<char> = Vec::new();
    for c in it: s.chars()
        invariant
            out@ == it.seq().take(it.index() as int),
            it.seq() == s@,
    {
        out.push(c);
    }
    proof {
        assert(out@ =~= s@);
    }
    out
}

/// `String#start_with?`: whether the receiver's text begins with the
/// argument's text.
pub fn string_start_with(vm: &mut VM, receiver: PackedValue, args: VecArray, _block: Option<
    MethodRef,
>) -> (r: VMResult)
    requires
        old(vm).wf(),
        old(vm).globals.word_ok(receiver.0),
        args.wf(),
        args_ok(old(vm).globals, args@),
    ensures
        final(vm).wf(),
        grows(old(vm).globals, final(vm).globals),
        same_builtins(old(vm).globals, final(vm).globals),
        result_ok(final(vm).globals, r),
        (args@.len() == 1 && !crate::value::word_is_inline(receiver.0) && (old(vm).globals.heap_at(
            receiver.0,
        ) matches Value::String(s) && (old(vm).globals.heap_at(args@[0].0) matches Value::String(
            t,
        ) && !crate::value::word_is_inline(args@[0].0)))) ==> r == Ok::<PackedValue, RubyError>(
            if old(vm).globals.heap_at(args@[0].0)->String_0@.is_prefix_of(
                old(vm).globals.heap_at(receiver.0)->String_0@,
            ) {
                PackedValue::spec_true()
            } else {
                PackedValue::spec_false()
            },
        ),
{
    match vm.check_args_num(args.len(), 1, 1) {
        Ok(_) => {},
        Err(e) => {
            return Err(e);
        },
    }
    let string = match receiver.as_string(&vm.globals) {
        Some(s) => s,
        None => {
            return Err(vm.error_type("Receiver must be a String."));
        },
    };
    let a0 = args.get(0);
    let arg = match a0.as_string(&vm.globals) {
        Some(s) => s,
        None => {
            return Err(vm.error_argument("An arg must be a String."));
        },
    };
    let sc = chars_of(string.as_str());
    let ac = chars_of(arg.as_str());
    let res = is_prefix(&ac, &sc);
    Ok(PackedValue::bool(res))
}

/// Whether `p` is a prefix of `s`, character by character.
fn is_prefix(p: &Vec<char>, s: &Vec<char>) -> (r: bool)
    ensures
        r == p@.is_prefix_of(s@),
{
    let np = p.len();
    let ns = s.len();
    if np > ns {
        return false;
    }
    let mut i: usize = 0;
    while i < np
        invariant
            np == p@.len(),
            ns == s@.len(),
            np <= ns,
            i <= np,
            forall|j: int| 0 <= j < i ==> p@[j] == s@[j],
        decreases np - i,
    {
        if p[i] != s[i] {
            return false;
        }
        i += 1;
    }
    proof {
        assert(p@.is_prefix_of(s@)) by {
            assert(p@ =~= s@.take(np as int));
        }
    }
    true
}

/// `String#to_sym` / `String#intern`: the receiver's text as an interned
/// symbol.
pub fn string_to_sym(vm: &mut VM, receiver: PackedValue, args: VecArray, _block: Option<
    MethodRef,
>) -> (r: VMResult)
    requires
        old(vm).wf(),
        old(vm).globals.word_ok(receiver.0),
        args.wf(),
    ensures
        final(vm).wf(),
        grows(old(vm).globals, final(vm).globals),
        same_builtins(old(vm).globals, final(vm).globals),
        result_ok(final(vm).globals, r),
        (args@.len() == 0 && !crate::value::word_is_inline(receiver.0) && (old(vm).globals.heap_at(
            receiver.0,
        ) matches Value::String(_)) && old(vm).globals.idents.names@.len() < 0x8000_0000 - 1) ==> (
        r matches Ok(v) && crate::value::word_is_symbol(v.0) && final(vm).globals.idents.spec_name(
            crate::ident::IdentId(crate::value::decode_symbol(v.0)),
        ) == old(vm).globals.heap_at(receiver.0)->String_0@),
{
    match vm.check_args_num(args.len(), 0, 0) {
        Ok(_) => {},
        Err(e) => {
            return Err(e);
        },
    }
    if vm.globals.idents.names.len() >= 0x8000_0000 - 1 {
        return Err(vm.error_internal("the identifier table is full"));
    }
    let string = match receiver.as_string(&vm.globals) {
        Some(s) => s.clone(),
        None => {
            return Err(vm.error_type("Receiver must be a String."));
        },
    };
    let id = vm.globals.get_ident_id(string.as_str());
    Ok(PackedValue::symbol(id))
}

// ---------------------------------------------------------------------------
// Pattern substitution, through the regex crate.
// ---------------------------------------------------------------------------

/// The text produced by replacing, in `text`, every occurrence of the
/// literal `pattern` (escaped, so its characters match themselves) with
/// `replace`.  A pure function of the three texts; what it is on given
/// values is decided by the pattern engine.
pub uninterp spec fn gsub_literal_of(pattern: Seq<char>, text: Seq<char>, replace: Seq<char>) -> Seq<
    char,
>;

/// The text produced by replacing every match of the pattern `pattern`
/// (compiled as a pattern, which may fail) in `text` with `replace`, with
/// the engine's group references in `replace` honoured; absent when the
/// pattern does not compile.
pub uninterp spec fn gsub_pattern_of(pattern: Seq<char>, text: Seq<char>, replace: Seq<char>) -> Option<
    Seq<char>,
>;

/// Relies on `regex::escape`, `regex::Regex::new` and
/// `regex::Regex::replace_all`: escaping makes every character literal,
/// and replacement of a compiled pattern is a function of the pattern,
/// haystack and replacement texts alone.  An escaped pattern fails to
/// compile only by exceeding the engine's fixed compile-size limit, in
/// which case the haystack is handed back unchanged — still a function of
/// the texts alone.
#[verifier::external_body]
fn regex_gsub_literal(pattern: &String, text: &String, replace: &String) -> (r: String)
    ensures
        r@ == gsub_literal_of(pattern@, text@, replace@),
{
    match regex::Regex::new(&regex::escape(pattern)) {
        Ok(re) => re.replace_all(text, replace.as_str()).into_owned(),
        Err(_) => text.clone(),
    }
}

/// Relies on `regex::Regex::new` and `regex::Regex::replace_all`: whether
/// a pattern compiles, and what replacing its matches produces, are
/// functions of the pattern, haystack and replacement texts alone.
#[verifier::external_body]
fn regex_gsub_pattern(pattern: &String, text: &String, replace: &String) -> (r: Option<String>)
    ensures
        match r {
            Some(s) => gsub_pattern_of(pattern@, text@, replace@) == Some(s@),
            None => gsub_pattern_of(pattern@, text@, replace@) is None,
        },
{
    match regex::Regex::new(pattern) {
        Ok(re) => Some(re.replace_all(text, replace.as_str()).into_owned()),
        Err(_) => None,
    }
}

/// `String#gsub`: global substitution.  A string first argument is taken
/// literally; a pattern-object first argument is compiled and applied with
/// the engine's replacement syntax.
pub fn string_gsub(vm: &mut VM, receiver: PackedValue, args: VecArray, _block: Option<MethodRef>) -> (r:
    VMResult)
    requires
        old(vm).wf(),
        old(vm).globals.word_ok(receiver.0),
        args.wf(),
        args_ok(old(vm).globals, args@),
    ensures
        final(vm).wf(),
        grows(old(vm).globals, final(vm).globals),
        same_builtins(old(vm).globals, final(vm).globals),
        result_ok(final(vm).globals, r),
        (args@.len() == 2 && !crate::value::word_is_inline(receiver.0) && (old(vm).globals.heap_at(
            receiver.0,
        ) matches Value::String(_)) && !crate::value::word_is_inline(args@[0].0) && (old(
            vm,
        ).globals.heap_at(args@[0].0) matches Value::String(_)) && !crate::value::word_is_inline(
            args@[1].0,
        ) && (old(vm).globals.heap_at(args@[1].0) matches Value::String(_)) && old(
            vm,
        ).globals.spec_can_alloc()) ==> (r matches Ok(v) && final(vm).globals.spec_unpack(v.0)
            matches Value::String(s) && s@ == gsub_literal_of(
            old(vm).globals.heap_at(args@[0].0)->String_0@,
            old(vm).globals.heap_at(receiver.0)->String_0@,
            old(vm).globals.heap_at(args@[1].0)->String_0@,
        )),
{
    match vm.check_args_num(args.len(), 1, 2) {
        Ok(_) => {},
        Err(e) => {
            return Err(e);
        },
    }
    if args.len() < 2 {
        return Err(vm.error_argument("wrong number of arguments"));
    }
    let given = match receiver.as_string(&vm.globals) {
        Some(s) => s.clone(),
        None => {
            return Err(vm.error_type("Receiver must be a String."));
        },
    };
    let a1 = args.get(1);
    let replace = match a1.as_string(&vm.globals) {
        Some(s) => s.clone(),
        None => {
            return Err(vm.error_argument("2nd arg must be a String."));
        },
    };
    let a0 = args.get(0);
    let res: String = match a0.as_string(&vm.globals) {
        Some(pat) => regex_gsub_literal(pat, &given, &replace),
        None => {
            match a0.as_regexp(&vm.globals) {
                Some(info) => {
                    match regex_gsub_pattern(&info.source, &given, &replace) {
                        Some(s) => s,
                        None => {
                            return Err(vm.error_argument("Illegal string for RegExp."));
                        },
                    }
                },
                None => {
                    return Err(vm.error_argument("1st arg must be RegExp or String."));
                },
            }
        },
    };
    if !vm.globals.can_alloc() {
        return Err(vm.error_internal("the heap is full"));
    }
    let res_val = PackedValue::string(&mut vm.globals, res);
    Ok(res_val)
}

} // verus!
