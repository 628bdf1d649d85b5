//! Ancestor order, resolution precedence, re-entrant iteration, pattern
//! substitution, and the native array methods.

use rubyrt::globals::Globals;
use rubyrt::method::{ISeqInfo, ISeqRef, LvarCollector, LvarId, MethodInfo, MethodRef};
use rubyrt::object::ClassRef;
use rubyrt::value::{PackedValue, Value, VecArray};
use rubyrt::lexer::Lexer;
use rubyrt::parser::{BinOp, Node, NodeKind, Parser};
use rubyrt::vm::{
    resolve_instance_method, send, Activation, Evaluator, RubyError, VM, VMResult,
};

/// An evaluator that squares the block's single argument, counting calls;
/// after `break_after` calls it signals a break with the given value.
struct SquareEval {
    calls: usize,
    break_after: usize,
    break_value: i64,
}

impl Evaluator for SquareEval {
    fn eval(&mut self, globals: &mut Globals, _iseq: ISeqRef, act: Activation) -> VMResult {
        self.calls += 1;
        if self.break_after > 0 && self.calls > self.break_after {
            let v = PackedValue::fixnum(globals, self.break_value);
            return Err(RubyError::Break(v));
        }
        let x = act.lvars[0].as_fixnum(globals).expect("a number argument");
        Ok(PackedValue::fixnum(globals, x * x))
    }
}

fn block_method(vm: &mut VM) -> Option<MethodRef> {
    let lvar = LvarCollector { table: vec![vm.globals.get_ident_id("x")] };
    let iseq = ISeqInfo::new(vec![LvarId(0)], Vec::new(), lvar, Vec::new());
    let iseq_ref = vm.globals.add_iseq(iseq);
    Some(vm.globals.add_method(MethodInfo::RubyFunc { iseq: iseq_ref }))
}

fn fixnum_array(vm: &mut VM, xs: &[i64]) -> PackedValue {
    let mut v: Vec<PackedValue> = Vec::new();
    for x in xs {
        v.push(PackedValue::fixnum(&mut vm.globals, *x));
    }
    PackedValue::array_from(&mut vm.globals, v)
}

fn array_fixnums(vm: &VM, val: PackedValue) -> Vec<i64> {
    let aref = val.as_array(&vm.globals).expect("an array value");
    vm.globals
        .elements_copy(aref)
        .iter()
        .map(|v| v.as_fixnum(&vm.globals).expect("a number element"))
        .collect()
}

fn send_name(
    vm: &mut VM,
    ev: &mut SquareEval,
    receiver: PackedValue,
    name: &str,
    args: VecArray,
    block: Option<MethodRef>,
) -> VMResult {
    let id = vm.globals.get_ident_id(name);
    send(vm, ev, receiver, id, args, block)
}

fn quiet_eval() -> SquareEval {
    SquareEval { calls: 0, break_after: 0, break_value: 0 }
}

#[test]
fn ancestor_order() {
    // class C includes M1 then M2 under superclass S: the walk is
    // [C, M2, M1, S, Object], most recently included module first
    let mut vm = VM::new();
    let mut ev = quiet_eval();
    let ocref = vm.globals.object.as_class(&vm.globals);
    let s_id = vm.globals.get_ident_id("S");
    let s_cref = ClassRef::from(&mut vm.globals, s_id, Some(ocref));
    let s_val = PackedValue::class(&mut vm.globals, s_cref);
    let c_id = vm.globals.get_ident_id("C");
    let c_cref = ClassRef::from(&mut vm.globals, c_id, Some(s_cref));
    let c_val = PackedValue::class(&mut vm.globals, c_cref);
    let m1_id = vm.globals.get_ident_id("M1");
    let m1_cref = ClassRef::from(&mut vm.globals, m1_id, None);
    let m1_val = PackedValue::module(&mut vm.globals, m1_cref);
    let m2_id = vm.globals.get_ident_id("M2");
    let m2_cref = ClassRef::from(&mut vm.globals, m2_id, None);
    let m2_val = PackedValue::module(&mut vm.globals, m2_cref);

    send_name(&mut vm, &mut ev, c_val, "include_module", VecArray::new1(m1_val), None).unwrap();
    send_name(&mut vm, &mut ev, c_val, "include_module", VecArray::new1(m2_val), None).unwrap();

    let r = send_name(&mut vm, &mut ev, c_val, "ancestors", VecArray::new0(), None).unwrap();
    let aref = r.as_array(&vm.globals).unwrap();
    let got: Vec<u64> = vm.globals.elements_copy(aref).iter().map(|v| v.id()).collect();
    let expect = vec![
        c_val.id(),
        m2_val.id(),
        m1_val.id(),
        s_val.id(),
        vm.globals.object.id(),
    ];
    assert_eq!(got, expect);

    // the listing keeps each class's include list in insertion order
    let r = send_name(&mut vm, &mut ev, c_val, "included_modules", VecArray::new0(), None)
        .unwrap();
    let aref = r.as_array(&vm.globals).unwrap();
    let got: Vec<u64> = vm.globals.elements_copy(aref).iter().map(|v| v.id()).collect();
    assert_eq!(got, vec![m1_val.id(), m2_val.id()]);
}

#[test]
fn resolution_precedence() {
    // a method on C shadows the included module, which shadows the
    // superclass; redefinition changes later resolution but not a method
    // object bound earlier
    let mut vm = VM::new();
    let ocref = vm.globals.object.as_class(&vm.globals);
    let s_id = vm.globals.get_ident_id("S");
    let s_cref = ClassRef::from(&mut vm.globals, s_id, Some(ocref));
    let _s_val = PackedValue::class(&mut vm.globals, s_cref);
    let c_id = vm.globals.get_ident_id("C");
    let c_cref = ClassRef::from(&mut vm.globals, c_id, Some(s_cref));
    let c_val = PackedValue::class(&mut vm.globals, c_cref);
    let m_id = vm.globals.get_ident_id("M");
    let m_cref = ClassRef::from(&mut vm.globals, m_id, None);
    let m_val = PackedValue::module(&mut vm.globals, m_cref);
    vm.globals.append_included(c_cref, m_val);

    let name = vm.globals.get_ident_id("probe");
    let dummy_iseq = {
        let iseq = ISeqInfo::new(Vec::new(), Vec::new(), LvarCollector::new(), Vec::new());
        vm.globals.add_iseq(iseq)
    };
    let in_s = vm.globals.add_method(MethodInfo::RubyFunc { iseq: dummy_iseq });
    let in_m = vm.globals.add_method(MethodInfo::RubyFunc { iseq: dummy_iseq });
    let in_c = vm.globals.add_method(MethodInfo::RubyFunc { iseq: dummy_iseq });

    vm.globals.add_instance_method(s_cref, name, in_s);
    assert_eq!(resolve_instance_method(&vm.globals, c_cref, name), Some(in_s));
    vm.globals.add_instance_method(m_cref, name, in_m);
    assert_eq!(resolve_instance_method(&vm.globals, c_cref, name), Some(in_m));
    vm.globals.add_instance_method(c_cref, name, in_c);
    assert_eq!(resolve_instance_method(&vm.globals, c_cref, name), Some(in_c));

    // bind a method object to the current record, then redefine
    let bound = PackedValue::method(&mut vm.globals, name, c_val, in_c);
    let in_c2 = vm.globals.add_method(MethodInfo::RubyFunc { iseq: dummy_iseq });
    vm.globals.add_instance_method(c_cref, name, in_c2);
    assert_eq!(resolve_instance_method(&vm.globals, c_cref, name), Some(in_c2));
    let mobj = bound.as_method(&vm.globals).unwrap();
    assert_eq!(vm.globals.methodobjs[mobj.0].method, in_c);
}

#[test]
fn array_map_squares() {
    // a native map over [1,2,3] with a block computing x*x yields [1,4,9]
    let mut vm = VM::new();
    let mut ev = quiet_eval();
    let ary = fixnum_array(&mut vm, &[1, 2, 3]);
    let block = block_method(&mut vm);
    let r = send_name(&mut vm, &mut ev, ary, "map", VecArray::new0(), block).unwrap();
    assert_eq!(array_fixnums(&vm, r), vec![1, 4, 9]);
    assert_eq!(ev.calls, 3);
    // the receiver itself is untouched
    assert_eq!(array_fixnums(&vm, ary), vec![1, 2, 3]);
}

#[test]
fn array_map_break() {
    // a block that signals a break mid-iteration ends the call with the
    // signalled value, and no further elements are processed
    let mut vm = VM::new();
    let mut ev = SquareEval { calls: 0, break_after: 2, break_value: 42 };
    let ary = fixnum_array(&mut vm, &[1, 2, 3, 4, 5]);
    let block = block_method(&mut vm);
    let r = send_name(&mut vm, &mut ev, ary, "map", VecArray::new0(), block).unwrap();
    assert_eq!(r.as_fixnum(&vm.globals), Some(42));
    assert_eq!(ev.calls, 3);
}

#[test]
fn array_each_keeps_receiver() {
    let mut vm = VM::new();
    let mut ev = quiet_eval();
    let ary = fixnum_array(&mut vm, &[4, 5]);
    let block = block_method(&mut vm);
    let r = send_name(&mut vm, &mut ev, ary, "each", VecArray::new0(), block).unwrap();
    assert_eq!(r.id(), ary.id());
    assert_eq!(ev.calls, 2);
}

#[test]
fn array_methods() {
    let mut vm = VM::new();
    let mut ev = quiet_eval();
    let ary = fixnum_array(&mut vm, &[1, 2]);
    // push appends and returns the receiver
    let v3 = PackedValue::fixnum(&mut vm.globals, 3);
    let r = send_name(&mut vm, &mut ev, ary, "push", VecArray::new1(v3), None).unwrap();
    assert_eq!(array_fixnums(&vm, r), vec![1, 2, 3]);
    // length
    let r = send_name(&mut vm, &mut ev, ary, "length", VecArray::new0(), None).unwrap();
    assert_eq!(r.as_fixnum(&vm.globals), Some(3));
    // pop removes the last element
    let r = send_name(&mut vm, &mut ev, ary, "pop", VecArray::new0(), None).unwrap();
    assert_eq!(r.as_fixnum(&vm.globals), Some(3));
    assert_eq!(array_fixnums(&vm, ary), vec![1, 2]);
    // * repeats
    let two = PackedValue::fixnum(&mut vm.globals, 2);
    let r = send_name(&mut vm, &mut ev, ary, "*", VecArray::new1(two), None).unwrap();
    assert_eq!(array_fixnums(&vm, r), vec![1, 2, 1, 2]);
    // + concatenates
    let rhs = fixnum_array(&mut vm, &[7]);
    let r = send_name(&mut vm, &mut ev, ary, "+", VecArray::new1(rhs), None).unwrap();
    assert_eq!(array_fixnums(&vm, r), vec![1, 2, 7]);
    // - removes equal elements
    let lhs = fixnum_array(&mut vm, &[1, 2, 3, 2, 1]);
    let sub = fixnum_array(&mut vm, &[2]);
    let r = send_name(&mut vm, &mut ev, lhs, "-", VecArray::new1(sub), None).unwrap();
    assert_eq!(array_fixnums(&vm, r), vec![1, 3, 1]);
    // include?
    let one = PackedValue::fixnum(&mut vm.globals, 1);
    let r = send_name(&mut vm, &mut ev, lhs, "include?", VecArray::new1(one), None).unwrap();
    assert!(r.is_true_val());
    let nine = PackedValue::fixnum(&mut vm.globals, 9);
    let r = send_name(&mut vm, &mut ev, lhs, "include?", VecArray::new1(nine), None).unwrap();
    assert!(r.is_false_val());
    // reverse / reverse!
    let r = send_name(&mut vm, &mut ev, ary, "reverse", VecArray::new0(), None).unwrap();
    assert_eq!(array_fixnums(&vm, r), vec![2, 1]);
    assert_eq!(array_fixnums(&vm, ary), vec![1, 2]);
    let r = send_name(&mut vm, &mut ev, ary, "reverse!", VecArray::new0(), None).unwrap();
    assert_eq!(r.id(), ary.id());
    assert_eq!(array_fixnums(&vm, ary), vec![2, 1]);
}

#[test]
fn array_transpose() {
    let mut vm = VM::new();
    let mut ev = quiet_eval();
    let row1 = fixnum_array(&mut vm, &[1, 2]);
    let row2 = fixnum_array(&mut vm, &[3, 4]);
    let row3 = fixnum_array(&mut vm, &[5, 6]);
    let outer = PackedValue::array_from(&mut vm.globals, vec![row1, row2, row3]);
    let r = send_name(&mut vm, &mut ev, outer, "transpose", VecArray::new0(), None).unwrap();
    let cols = {
        let aref = r.as_array(&vm.globals).unwrap();
        vm.globals.elements_copy(aref)
    };
    assert_eq!(cols.len(), 2);
    assert_eq!(array_fixnums(&vm, cols[0]), vec![1, 3, 5]);
    assert_eq!(array_fixnums(&vm, cols[1]), vec![2, 4, 6]);
    // mismatched row lengths are an index error
    let short = fixnum_array(&mut vm, &[9]);
    let bad = PackedValue::array_from(&mut vm.globals, vec![row1, short]);
    let r = send_name(&mut vm, &mut ev, bad, "transpose", VecArray::new0(), None);
    assert!(matches!(r, Err(RubyError::Index(_))));
}

#[test]
fn array_new_cases() {
    let mut vm = VM::new();
    let mut ev = quiet_eval();
    let array_cls = vm.globals.array;
    let r = send_name(&mut vm, &mut ev, array_cls, "new", VecArray::new0(), None).unwrap();
    assert_eq!(array_fixnums(&vm, r).len(), 0);
    let three = PackedValue::fixnum(&mut vm.globals, 3);
    let r = send_name(&mut vm, &mut ev, array_cls, "new", VecArray::new1(three), None).unwrap();
    let aref = r.as_array(&vm.globals).unwrap();
    let elems = vm.globals.elements_copy(aref);
    assert_eq!(elems.len(), 3);
    assert!(elems.iter().all(|v| v.is_nil()));
    let seven = PackedValue::fixnum(&mut vm.globals, 7);
    let r = send_name(&mut vm, &mut ev, array_cls, "new", VecArray::new2(three, seven), None)
        .unwrap();
    assert_eq!(array_fixnums(&vm, r), vec![7, 7, 7]);
}

#[test]
fn string_methods() {
    let mut vm = VM::new();
    let mut ev = quiet_eval();
    let s = PackedValue::string(&mut vm.globals, "open windows".to_string());
    let prefix = PackedValue::string(&mut vm.globals, "open".to_string());
    let r = send_name(&mut vm, &mut ev, s, "start_with?", VecArray::new1(prefix), None).unwrap();
    assert!(r.is_true_val());
    let other = PackedValue::string(&mut vm.globals, "shut".to_string());
    let r = send_name(&mut vm, &mut ev, s, "start_with?", VecArray::new1(other), None).unwrap();
    assert!(r.is_false_val());

    let word = PackedValue::string(&mut vm.globals, "instance".to_string());
    let r = send_name(&mut vm, &mut ev, word, "to_sym", VecArray::new0(), None).unwrap();
    let id = vm.globals.get_ident_id("instance");
    assert_eq!(r.id(), PackedValue::symbol(id).id());
    let r2 = send_name(&mut vm, &mut ev, word, "intern", VecArray::new0(), None).unwrap();
    assert_eq!(r2.id(), r.id());
}

#[test]
fn string_gsub() {
    let mut vm = VM::new();
    let mut ev = quiet_eval();
    let s = PackedValue::string(&mut vm.globals, "hello, world".to_string());
    let pat = PackedValue::string(&mut vm.globals, "l".to_string());
    let rep = PackedValue::string(&mut vm.globals, "L".to_string());
    let r = send_name(&mut vm, &mut ev, s, "gsub", VecArray::new2(pat, rep), None).unwrap();
    assert_eq!(r.as_string(&vm.globals).unwrap(), "heLLo, worLd");
    // a string pattern is taken literally, not as pattern syntax
    let s2 = PackedValue::string(&mut vm.globals, "a.c".to_string());
    let pat2 = PackedValue::string(&mut vm.globals, ".".to_string());
    let rep2 = PackedValue::string(&mut vm.globals, "!".to_string());
    let r = send_name(&mut vm, &mut ev, s2, "gsub", VecArray::new2(pat2, rep2), None).unwrap();
    assert_eq!(r.as_string(&vm.globals).unwrap(), "a!c");
    // a pattern object applies its pattern syntax
    let rref = rubyrt::object::RegexpRef::from(&mut vm.globals, "l+".to_string());
    let pat3 = PackedValue::regexp(&mut vm.globals, rref);
    let s3 = PackedValue::string(&mut vm.globals, "hello".to_string());
    let rep3 = PackedValue::string(&mut vm.globals, "_".to_string());
    let r = send_name(&mut vm, &mut ev, s3, "gsub", VecArray::new2(pat3, rep3), None).unwrap();
    assert_eq!(r.as_string(&vm.globals).unwrap(), "he_o");
}

#[test]
fn nomethod_and_const_errors() {
    let mut vm = VM::new();
    let mut ev = quiet_eval();
    let n = PackedValue::fixnum(&mut vm.globals, 5);
    let r = send_name(&mut vm, &mut ev, n, "no_such_method", VecArray::new0(), None);
    assert!(matches!(r, Err(RubyError::NoMethod(_))));
    let ocref = vm.globals.object.as_class(&vm.globals);
    let c_id = vm.globals.get_ident_id("C");
    let c_cref = ClassRef::from(&mut vm.globals, c_id, Some(ocref));
    let c_val = PackedValue::class(&mut vm.globals, c_cref);
    let missing = vm.globals.get_ident_id("Missing");
    let sym = PackedValue::symbol(missing);
    let r = send_name(&mut vm, &mut ev, c_val, "const_get", VecArray::new1(sym), None);
    assert!(matches!(r, Err(RubyError::Name(_))));
    let not_a_symbol = PackedValue::fixnum(&mut vm.globals, 3);
    let r = send_name(&mut vm, &mut ev, c_val, "const_get", VecArray::new1(not_a_symbol), None);
    assert!(matches!(r, Err(RubyError::Type(_))));
    // attribute synthesis rejects non-symbol arguments
    let r = send_name(&mut vm, &mut ev, c_val, "attr_accessor", VecArray::new1(not_a_symbol), None);
    assert!(matches!(r, Err(RubyError::Name(_))));
    // the ancestor walk reports a corrupt receiver, never a silent stop
    let r = rubyrt::reflect::ancestors(&mut vm, n, VecArray::new0(), None);
    assert!(matches!(r, Err(RubyError::Internal(_))));
}

#[test]
fn instance_variables_default_nil() {
    let mut vm = VM::new();
    let mut ev = quiet_eval();
    let ocref = vm.globals.object.as_class(&vm.globals);
    let c_id = vm.globals.get_ident_id("C");
    let c_cref = ClassRef::from(&mut vm.globals, c_id, Some(ocref));
    let c_val = PackedValue::class(&mut vm.globals, c_cref);
    let obj = send_name(&mut vm, &mut ev, c_val, "new", VecArray::new0(), None).unwrap();
    let iv = vm.globals.get_ident_id("@x");
    assert!(obj.get_var(&vm.globals, iv).is_none());
    let v = PackedValue::fixnum(&mut vm.globals, 9);
    obj.set_var(&mut vm.globals, iv, v);
    assert_eq!(obj.get_var(&vm.globals, iv).map(|x| x.id()), Some(v.id()));
    assert!(obj.set_var_if_exists(&mut vm.globals, iv, c_val));
    let other = vm.globals.get_ident_id("@y");
    assert!(!obj.set_var_if_exists(&mut vm.globals, other, v));
}

#[test]
fn parser_expressions() {
    let mut lexer = Lexer::new("1+2*3; (4-5)");
    let tokens = lexer.tokenize().unwrap();
    let mut parser = Parser::new(tokens);
    let node = parser.parse_comp_stmt().unwrap();
    match node.kind {
        NodeKind::CompStmt(nodes) => {
            assert_eq!(nodes.len(), 2);
            match &nodes[0].kind {
                NodeKind::BinOp(BinOp::Add, lhs, rhs) => {
                    assert!(matches!(lhs.kind, NodeKind::Number(1)));
                    match &rhs.kind {
                        NodeKind::BinOp(BinOp::Mul, l2, r2) => {
                            assert!(matches!(l2.kind, NodeKind::Number(2)));
                            assert!(matches!(r2.kind, NodeKind::Number(3)));
                        },
                        other => panic!("Expect product Got:{:?}", other),
                    }
                },
                other => panic!("Expect sum Got:{:?}", other),
            }
            match &nodes[1].kind {
                NodeKind::BinOp(BinOp::Sub, l, r) => {
                    assert!(matches!(l.kind, NodeKind::Number(4)));
                    assert!(matches!(r.kind, NodeKind::Number(5)));
                },
                other => panic!("Expect difference Got:{:?}", other),
            }
        },
        other => panic!("Expect compound statement Got:{:?}", other),
    }
    // if/then/elsif/else/end
    let mut lexer = Lexer::new("if 1 then 2 elsif 3 then 4 else 5 end");
    let tokens = lexer.tokenize().unwrap();
    let mut parser = Parser::new(tokens);
    let node = parser.parse_expr().unwrap();
    assert!(matches!(node.kind, NodeKind::If(_, _, _)));
    let _ = Node::new_comp_stmt();
}

#[test]
fn argument_and_unimplemented_errors() {
    let mut vm = VM::new();
    let mut ev = quiet_eval();
    let ary = fixnum_array(&mut vm, &[1]);
    // reverse takes no arguments
    let extra = PackedValue::fixnum(&mut vm.globals, 0);
    let r = send_name(&mut vm, &mut ev, ary, "reverse", VecArray::new1(extra), None);
    assert!(matches!(r, Err(RubyError::Argument(_))));
    // map without a block is an argument error
    let r = send_name(&mut vm, &mut ev, ary, "map", VecArray::new0(), None);
    assert!(matches!(r, Err(RubyError::Argument(_))));
    // the generic constructor refuses a non-class receiver
    let n = PackedValue::fixnum(&mut vm.globals, 5);
    let r = rubyrt::class::class_new(&mut vm, &mut ev, n, VecArray::new0(), None);
    assert!(matches!(r, Err(RubyError::Unimplemented(_))));
    // expect_fixnum distinguishes numbers from everything else
    assert_eq!(n.expect_fixnum(&vm, "arg").unwrap(), 5);
    let s = PackedValue::string(&mut vm.globals, "five".to_string());
    assert!(matches!(s.expect_fixnum(&vm, "arg"), Err(RubyError::Argument(_))));
}

#[test]
fn initialize_runs_on_new() {
    // Class#new runs an interpreted initialize defined directly on the
    // class, once, on the fresh instance
    let mut vm = VM::new();
    let mut ev = quiet_eval();
    let ocref = vm.globals.object.as_class(&vm.globals);
    let c_id = vm.globals.get_ident_id("C");
    let c_cref = ClassRef::from(&mut vm.globals, c_id, Some(ocref));
    let c_val = PackedValue::class(&mut vm.globals, c_cref);
    let init_id = vm.globals.get_ident_id("initialize");
    let lvar = LvarCollector { table: vec![vm.globals.get_ident_id("x")] };
    let iseq = ISeqInfo::new(vec![LvarId(0)], Vec::new(), lvar, Vec::new());
    let iseq_ref = vm.globals.add_iseq(iseq);
    let mref = vm.globals.add_method(MethodInfo::RubyFunc { iseq: iseq_ref });
    vm.globals.add_instance_method(c_cref, init_id, mref);
    let seven = PackedValue::fixnum(&mut vm.globals, 7);
    let obj = send_name(&mut vm, &mut ev, c_val, "new", VecArray::new1(seven), None).unwrap();
    assert_eq!(ev.calls, 1);
    assert!(obj.is_object(&vm.globals).is_some());
}

#[test]
fn heap_object_accessors() {
    let mut vm = VM::new();
    let lo = PackedValue::fixnum(&mut vm.globals, 1);
    let hi = PackedValue::fixnum(&mut vm.globals, 9);
    let range = PackedValue::range(&mut vm.globals, lo, hi, true);
    let info = range.as_range(&vm.globals).unwrap();
    assert_eq!(info.start.id(), lo.id());
    assert_eq!(info.end.id(), hi.id());
    assert!(info.exclude);
    assert!(range.as_array(&vm.globals).is_none());

    let pairs = vec![(lo, hi)];
    let href = rubyrt::object::HashRef::from(&mut vm.globals, pairs);
    let hash = PackedValue::hash(&mut vm.globals, href);
    assert_eq!(hash.as_hash(&vm.globals), Some(href));
    assert!(hash.as_range(&vm.globals).is_none());

    let aref = rubyrt::object::ArrayRef::from(&mut vm.globals, vec![lo, hi]);
    let splat = PackedValue::splat(&mut vm.globals, aref);
    assert_eq!(splat.as_splat(&vm.globals), Some(aref));
    assert!(splat.as_array(&vm.globals).is_none());

    let rref = rubyrt::object::RegexpRef::from(&mut vm.globals, "a+".to_string());
    let pat = PackedValue::regexp(&mut vm.globals, rref);
    assert_eq!(pat.as_regexp(&vm.globals).unwrap().source, "a+");

    // class-of resolution start points for plain values
    assert_eq!(lo.get_class_object(&vm.globals).id(), vm.globals.integer.id());
    let s = PackedValue::string(&mut vm.globals, "text".to_string());
    assert_eq!(s.get_class_object(&vm.globals).id(), vm.globals.string.id());
    let nil = PackedValue::nil();
    assert_eq!(nil.get_class_object(&vm.globals).id(), vm.globals.object.id());

    // the superclass link of a class value
    let sup = vm.globals.array.superclass(&vm.globals).unwrap();
    assert_eq!(sup.id(), vm.globals.object.id());
    assert!(vm.globals.object.superclass(&vm.globals).is_none());
}

#[test]
fn isa_and_method_builtins() {
    let mut vm = VM::new();
    let mut ev = quiet_eval();
    let ocref = vm.globals.object.as_class(&vm.globals);
    let s_id = vm.globals.get_ident_id("S");
    let s_cref = ClassRef::from(&mut vm.globals, s_id, Some(ocref));
    let s_val = PackedValue::class(&mut vm.globals, s_cref);
    let c_id = vm.globals.get_ident_id("C");
    let c_cref = ClassRef::from(&mut vm.globals, c_id, Some(s_cref));
    let c_val = PackedValue::class(&mut vm.globals, c_cref);
    let obj = send_name(&mut vm, &mut ev, c_val, "new", VecArray::new0(), None).unwrap();
    // an instance is_a? its class, its superclass, and the base class
    let base = vm.globals.object;
    for target in [c_val, s_val, base] {
        let r = send_name(&mut vm, &mut ev, obj, "is_a?", VecArray::new1(target), None).unwrap();
        assert!(r.is_true_val());
    }
    let array_cls = vm.globals.array;
    let r = send_name(&mut vm, &mut ev, obj, "is_a?", VecArray::new1(array_cls), None).unwrap();
    assert!(r.is_false_val());
    // method binds the record resolution finds now
    let probe = vm.globals.get_ident_id("probe");
    let m1 = {
        let iseq = ISeqInfo::new(Vec::new(), Vec::new(), LvarCollector::new(), Vec::new());
        let iseq_ref = vm.globals.add_iseq(iseq);
        vm.globals.add_method(MethodInfo::RubyFunc { iseq: iseq_ref })
    };
    vm.globals.add_instance_method(c_cref, probe, m1);
    let sym = PackedValue::symbol(probe);
    let bound = send_name(&mut vm, &mut ev, obj, "method", VecArray::new1(sym), None).unwrap();
    let mo = bound.as_method(&vm.globals).unwrap();
    assert_eq!(vm.globals.methodobjs[mo.0].method, m1);
    assert_eq!(vm.globals.methodobjs[mo.0].receiver.id(), obj.id());
    let missing = PackedValue::symbol(vm.globals.get_ident_id("absent"));
    let r = send_name(&mut vm, &mut ev, obj, "method", VecArray::new1(missing), None);
    assert!(matches!(r, Err(RubyError::NoMethod(_))));
}

#[test]
fn numeric_tower_equality() {
    // integers compare by value whether inline or boxed, and equal an
    // equal-magnitude floating-point value; the array builtins see it
    let mut vm = VM::new();
    let boxed_a = PackedValue::fixnum(&mut vm.globals, 0x4000_0000_0000_0000);
    let boxed_b = PackedValue::fixnum(&mut vm.globals, 0x4000_0000_0000_0000);
    assert!(!boxed_a.is_packed_value());
    assert_ne!(boxed_a.id(), boxed_b.id());
    assert!(boxed_a.equal(&vm.globals, boxed_b));
    let five = PackedValue::fixnum(&mut vm.globals, 5);
    let five_f = PackedValue::flonum(&mut vm.globals, 5.0f64.to_bits());
    let five_and_half = PackedValue::flonum(&mut vm.globals, 5.5f64.to_bits());
    assert!(five.equal(&vm.globals, five_f));
    assert!(five_f.equal(&vm.globals, five));
    assert!(!five.equal(&vm.globals, five_and_half));
    let zero = PackedValue::fixnum(&mut vm.globals, 0);
    let neg_zero = PackedValue::flonum(&mut vm.globals, (-0.0f64).to_bits());
    assert!(zero.equal(&vm.globals, neg_zero));
    let min = PackedValue::fixnum(&mut vm.globals, i64::MIN);
    let min_f = PackedValue::flonum(&mut vm.globals, (i64::MIN as f64).to_bits());
    assert!(min.equal(&vm.globals, min_f));
    let big_f = PackedValue::flonum(&mut vm.globals, 9.3e18f64.to_bits());
    assert!(!min.equal(&vm.globals, big_f));
    // include? honours the numeric tower for a boxed probe
    let mut ev = quiet_eval();
    let ary = fixnum_array(&mut vm, &[1, 2]);
    let one_box = Value::FixNum(1).pack(&mut vm.globals);
    let two_f = PackedValue::flonum(&mut vm.globals, 2.0f64.to_bits());
    let r = send_name(&mut vm, &mut ev, ary, "include?", VecArray::new1(one_box), None).unwrap();
    assert!(r.is_true_val());
    let r = send_name(&mut vm, &mut ev, ary, "include?", VecArray::new1(two_f), None).unwrap();
    assert!(r.is_true_val());
}

#[test]
fn map_and_each_on_empty_receiver() {
    let mut vm = VM::new();
    let mut ev = quiet_eval();
    let ary = fixnum_array(&mut vm, &[]);
    let block = block_method(&mut vm);
    let r = send_name(&mut vm, &mut ev, ary, "map", VecArray::new0(), block).unwrap();
    assert_eq!(array_fixnums(&vm, r).len(), 0);
    let r = send_name(&mut vm, &mut ev, ary, "each", VecArray::new0(), block).unwrap();
    assert_eq!(r.id(), ary.id());
    assert_eq!(ev.calls, 0);
}

#[test]
fn excess_arguments_are_an_arity_error() {
    // an interpreted method with one parameter refuses two arguments
    let mut vm = VM::new();
    let mut ev = quiet_eval();
    let ocref = vm.globals.object.as_class(&vm.globals);
    let c_id = vm.globals.get_ident_id("C");
    let c_cref = ClassRef::from(&mut vm.globals, c_id, Some(ocref));
    let c_val = PackedValue::class(&mut vm.globals, c_cref);
    let m_id = vm.globals.get_ident_id("probe");
    let mref = block_method(&mut vm).unwrap();
    vm.globals.add_instance_method(c_cref, m_id, mref);
    let obj = send_name(&mut vm, &mut ev, c_val, "new", VecArray::new0(), None).unwrap();
    let one = PackedValue::fixnum(&mut vm.globals, 1);
    let two = PackedValue::fixnum(&mut vm.globals, 2);
    let r = send_name(&mut vm, &mut ev, obj, "probe", VecArray::new2(one, two), None);
    assert!(matches!(r, Err(RubyError::Argument(_))));
    // one argument is bound; a missing one binds to nil
    let r = send_name(&mut vm, &mut ev, obj, "probe", VecArray::new1(two), None).unwrap();
    assert_eq!(r.as_fixnum(&vm.globals), Some(4));
}

#[test]
fn integer_conversion_builtin() {
    let mut vm = VM::new();
    let mut ev = quiet_eval();
    let five = PackedValue::fixnum(&mut vm.globals, 5);
    let target = PackedValue::fixnum(&mut vm.globals, 0);
    let r = send_name(&mut vm, &mut ev, target, "Integer", VecArray::new1(five), None).unwrap();
    assert_eq!(r.as_fixnum(&vm.globals), Some(5));
    let text = PackedValue::string(&mut vm.globals, "-9223372036854775808".to_string());
    let r = send_name(&mut vm, &mut ev, target, "Integer", VecArray::new1(text), None).unwrap();
    assert_eq!(r.as_fixnum(&vm.globals), Some(i64::MIN));
    let too_big = PackedValue::string(&mut vm.globals, "9223372036854775808".to_string());
    let r = send_name(&mut vm, &mut ev, target, "Integer", VecArray::new1(too_big), None);
    assert!(matches!(r, Err(RubyError::Type(_))));
    let junk = PackedValue::string(&mut vm.globals, "12a".to_string());
    let r = send_name(&mut vm, &mut ev, target, "Integer", VecArray::new1(junk), None);
    assert!(matches!(r, Err(RubyError::Type(_))));
    let nil = PackedValue::nil();
    let r = send_name(&mut vm, &mut ev, target, "Integer", VecArray::new1(nil), None);
    assert!(matches!(r, Err(RubyError::Type(_))));
}

#[test]
fn array_mul_large_count() {
    // repetition counts are limited only by the address space
    let mut vm = VM::new();
    let mut ev = quiet_eval();
    let ary = fixnum_array(&mut vm, &[1, 2]);
    let k = PackedValue::fixnum(&mut vm.globals, 5000);
    let r = send_name(&mut vm, &mut ev, ary, "*", VecArray::new1(k), None).unwrap();
    let got = array_fixnums(&vm, r);
    assert_eq!(got.len(), 10000);
    assert_eq!(got[9999], 2);
    let neg = PackedValue::fixnum(&mut vm.globals, -1);
    let r = send_name(&mut vm, &mut ev, ary, "*", VecArray::new1(neg), None);
    assert!(matches!(r, Err(RubyError::Argument(_))));
    // an empty receiver repeats to an empty array for any count
    let empty = fixnum_array(&mut vm, &[]);
    let huge = PackedValue::fixnum(&mut vm.globals, i64::MAX);
    let r = send_name(&mut vm, &mut ev, empty, "*", VecArray::new1(huge), None).unwrap();
    assert_eq!(array_fixnums(&vm, r).len(), 0);
}
