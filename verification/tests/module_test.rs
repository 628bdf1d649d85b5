//! The reflective module operations, driven through message sends exactly
//! as a class body would issue them.

use rubyrt::globals::Globals;
use rubyrt::ident::IdentId;
use rubyrt::method::{ISeqInfo, LvarCollector, MethodInfo, MethodRef};
use rubyrt::object::ClassRef;
use rubyrt::value::{PackedValue, VecArray};
use rubyrt::vm::{send, Activation, Evaluator, VM, VMResult};

/// An evaluator whose every interpreted body produces one fixed integer.
struct FixedEval(i64);

impl Evaluator for FixedEval {
    fn eval(
        &mut self,
        globals: &mut Globals,
        _iseq: rubyrt::method::ISeqRef,
        _act: Activation,
    ) -> VMResult {
        Ok(PackedValue::fixnum(globals, self.0))
    }
}

fn new_class(vm: &mut VM, name: &str, superclass: Option<ClassRef>) -> (ClassRef, PackedValue) {
    let id = vm.globals.get_ident_id(name);
    let sup = match superclass {
        Some(s) => Some(s),
        None => Some(vm.globals.object.as_class(&vm.globals)),
    };
    let cref = ClassRef::from(&mut vm.globals, id, sup);
    let val = PackedValue::class(&mut vm.globals, cref);
    (cref, val)
}

fn dummy_method(vm: &mut VM) -> MethodRef {
    let iseq = ISeqInfo::new(Vec::new(), Vec::new(), LvarCollector::new(), Vec::new());
    let iseq_ref = vm.globals.add_iseq(iseq);
    vm.globals.add_method(MethodInfo::RubyFunc { iseq: iseq_ref })
}

fn send_simple(vm: &mut VM, ev: &mut FixedEval, receiver: PackedValue, name: &str) -> PackedValue {
    let id = vm.globals.get_ident_id(name);
    send(vm, ev, receiver, id, VecArray::new0(), None).unwrap()
}

fn send_arg(
    vm: &mut VM,
    ev: &mut FixedEval,
    receiver: PackedValue,
    name: &str,
    arg: PackedValue,
) -> PackedValue {
    let id = vm.globals.get_ident_id(name);
    send(vm, ev, receiver, id, VecArray::new1(arg), None).unwrap()
}

fn symbol_of(vm: &mut VM, name: &str) -> PackedValue {
    let id = vm.globals.get_ident_id(name);
    PackedValue::symbol(id)
}

fn elements_of(vm: &VM, val: PackedValue) -> Vec<PackedValue> {
    let aref = val.as_array(&vm.globals).expect("an array value");
    vm.globals.elements_copy(aref)
}

/// Set comparison of two value lists, by identity words.
fn ary_cmp(a: &Vec<PackedValue>, b: &Vec<PackedValue>) -> bool {
    let mut xs: Vec<u64> = a.iter().map(|v| v.id()).collect();
    let mut ys: Vec<u64> = b.iter().map(|v| v.id()).collect();
    xs.sort();
    xs.dedup();
    ys.sort();
    ys.dedup();
    xs == ys
}

#[test]
fn module_function() {
    // class Foo
    //     module_function
    //     def bar
    //         123
    //     end
    // end
    // assert(123, Foo.bar)
    // assert(123, Foo.new.bar)
    let mut vm = VM::new();
    let mut ev = FixedEval(123);
    let (_, foo_val) = new_class(&mut vm, "Foo", None);
    send_simple(&mut vm, &mut ev, foo_val, "module_function");
    assert!(vm.module_function_flag);
    let bar_id = vm.globals.get_ident_id("bar");
    let bar_ref = dummy_method(&mut vm);
    vm.define_method(foo_val, bar_id, bar_ref).unwrap();
    let r = send_simple(&mut vm, &mut ev, foo_val, "bar");
    assert_eq!(r.as_fixnum(&vm.globals), Some(123));
    let instance = send_simple(&mut vm, &mut ev, foo_val, "new");
    let r2 = send_simple(&mut vm, &mut ev, instance, "bar");
    assert_eq!(r2.as_fixnum(&vm.globals), Some(123));
}

#[test]
fn constants() {
    // class Foo
    //     Bar = 100
    //     Ker = 777
    // end
    // class Bar < Foo
    //     Doo = 555
    // end
    // assert(100, Foo.const_get(:Bar))
    // assert(100, Bar.const_get(:Bar))
    // assert(true, ary_cmp(Foo.constants, [:Bar, :Ker]))
    // assert(true, ary_cmp(Bar.constants, [:Doo, :Bar, :Ker]))
    let mut vm = VM::new();
    let mut ev = FixedEval(0);
    let (foo_cref, foo_val) = new_class(&mut vm, "Foo", None);
    let (_, bar_cls_val) = new_class(&mut vm, "Bar", Some(foo_cref));
    let bar_id = vm.globals.get_ident_id("Bar");
    let ker_id = vm.globals.get_ident_id("Ker");
    let doo_id = vm.globals.get_ident_id("Doo");
    let v100 = PackedValue::fixnum(&mut vm.globals, 100);
    let v777 = PackedValue::fixnum(&mut vm.globals, 777);
    let v555 = PackedValue::fixnum(&mut vm.globals, 555);
    foo_val.set_var(&mut vm.globals, bar_id, v100);
    foo_val.set_var(&mut vm.globals, ker_id, v777);
    bar_cls_val.set_var(&mut vm.globals, doo_id, v555);

    let sym_bar = symbol_of(&mut vm, "Bar");
    let r = send_arg(&mut vm, &mut ev, foo_val, "const_get", sym_bar);
    assert_eq!(r.as_fixnum(&vm.globals), Some(100));
    let r = send_arg(&mut vm, &mut ev, bar_cls_val, "const_get", sym_bar);
    assert_eq!(r.as_fixnum(&vm.globals), Some(100));

    let foo_consts = send_simple(&mut vm, &mut ev, foo_val, "constants");
    let got = elements_of(&vm, foo_consts);
    let sym_ker = symbol_of(&mut vm, "Ker");
    let expect = vec![sym_bar, sym_ker];
    assert!(ary_cmp(&got, &expect));

    let bar_consts = send_simple(&mut vm, &mut ev, bar_cls_val, "constants");
    let got = elements_of(&vm, bar_consts);
    let sym_doo = symbol_of(&mut vm, "Doo");
    let expect = vec![sym_doo, sym_bar, sym_ker];
    assert!(ary_cmp(&got, &expect));
}

#[test]
fn attr_accessor() {
    // class Foo
    //     attr_accessor :car, :cdr
    // end
    // bar = Foo.new
    // assert nil, bar.car
    // assert nil, bar.cdr
    // bar.car = 1000
    // bar.cdr = :something
    // assert 1000, bar.car
    // assert :something, bar.cdr
    let mut vm = VM::new();
    let mut ev = FixedEval(0);
    let (_, foo_val) = new_class(&mut vm, "Foo", None);
    let sym_car = symbol_of(&mut vm, "car");
    let sym_cdr = symbol_of(&mut vm, "cdr");
    let acc_id = vm.globals.get_ident_id("attr_accessor");
    let mut args = VecArray::new0();
    args.push(sym_car);
    args.push(sym_cdr);
    send(&mut vm, &mut ev, foo_val, acc_id, args, None).unwrap();

    let bar = send_simple(&mut vm, &mut ev, foo_val, "new");
    assert!(send_simple(&mut vm, &mut ev, bar, "car").is_nil());
    assert!(send_simple(&mut vm, &mut ev, bar, "cdr").is_nil());
    let v1000 = PackedValue::fixnum(&mut vm.globals, 1000);
    let sym_something = symbol_of(&mut vm, "something");
    send_arg(&mut vm, &mut ev, bar, "car=", v1000);
    send_arg(&mut vm, &mut ev, bar, "cdr=", sym_something);
    let got_car = send_simple(&mut vm, &mut ev, bar, "car");
    assert_eq!(got_car.as_fixnum(&vm.globals), Some(1000));
    let got_cdr = send_simple(&mut vm, &mut ev, bar, "cdr");
    assert_eq!(got_cdr.id(), sym_something.id());
    // the backing instance variable is independently observable
    let at_car = vm.globals.get_ident_id("@car");
    assert_eq!(
        bar.get_var(&vm.globals, at_car).map(|v| v.id()),
        Some(v1000.id())
    );
}

#[test]
fn module_methods() {
    // class A
    //     Foo = 100
    //     Bar = 200
    //     def fn; end
    //     def fo; end
    // end
    // assert(true, ary_cmp(A.constants, [:Bar, :Foo]))
    // assert(true, ary_cmp(A.instance_methods - Class.instance_methods, [:fn, :fo]))
    let mut vm = VM::new();
    let mut ev = FixedEval(0);
    let (_, a_val) = new_class(&mut vm, "A", None);
    let foo_id = vm.globals.get_ident_id("Foo");
    let bar_id = vm.globals.get_ident_id("Bar");
    let v100 = PackedValue::fixnum(&mut vm.globals, 100);
    let v200 = PackedValue::fixnum(&mut vm.globals, 200);
    a_val.set_var(&mut vm.globals, foo_id, v100);
    a_val.set_var(&mut vm.globals, bar_id, v200);
    let fn_id = vm.globals.get_ident_id("fn");
    let fo_id = vm.globals.get_ident_id("fo");
    let m1 = dummy_method(&mut vm);
    let m2 = dummy_method(&mut vm);
    vm.define_method(a_val, fn_id, m1).unwrap();
    vm.define_method(a_val, fo_id, m2).unwrap();

    let consts = send_simple(&mut vm, &mut ev, a_val, "constants");
    let got = elements_of(&vm, consts);
    let sym_foo = symbol_of(&mut vm, "Foo");
    let sym_bar = symbol_of(&mut vm, "Bar");
    assert!(ary_cmp(&got, &vec![sym_bar, sym_foo]));

    let a_methods = send_simple(&mut vm, &mut ev, a_val, "instance_methods");
    let class_val = vm.globals.class_class;
    let class_methods = send_simple(&mut vm, &mut ev, class_val, "instance_methods");
    let a_set: Vec<u64> = elements_of(&vm, a_methods).iter().map(|v| v.id()).collect();
    let class_set: Vec<u64> = elements_of(&vm, class_methods).iter().map(|v| v.id()).collect();
    let mut diff: Vec<u64> = a_set
        .iter()
        .copied()
        .filter(|x| !class_set.contains(x))
        .collect();
    diff.sort();
    let sym_fn = symbol_of(&mut vm, "fn");
    let sym_fo = symbol_of(&mut vm, "fo");
    let mut expect = vec![sym_fn.id(), sym_fo.id()];
    expect.sort();
    assert_eq!(diff, expect);
}
