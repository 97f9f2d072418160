//! The parts of the compiler one by one: text, types, labels, scopes,
//! stamps, initializers, registers and frames.

use sysyc::ir::label::Label as IrLabel;
use sysyc::ir::scope::{Entry as IrEntry, Scope as IrScope};
use sysyc::ir::writer::Writer as IrWriter;
use sysyc::mem::emit::Error;
use sysyc::mem::info::{Info, ValueInfo};
use sysyc::mem::init::{flatten, suffix_products, Init};
use sysyc::mem::label::Label as MemLabel;
use sysyc::mem::scope::{Entry, Scope};
use sysyc::program::entities::{Bb, Func, Prog, Val};
use sysyc::program::types::Ty;
use sysyc::riscv::inst::{Alu, Inst, Reg};
use sysyc::riscv::label::Label as AsmLabel;
use sysyc::riscv::register::{Register, Registers};
use sysyc::riscv::scope::{Entry as AsmEntry, Scope as AsmScope};
use sysyc::riscv::writer::Writer as AsmWriter;
use sysyc::text::{decimal_string, i32_string, join2, join3, join_all, usize_string};
use sysyc::tools::{array_type_of, get_size_form_ty, rank_of};

// ---- text ----

#[test]
fn decimal_numerals() {
    assert_eq!(decimal_string(0), "0");
    assert_eq!(decimal_string(7), "7");
    assert_eq!(decimal_string(10), "10");
    assert_eq!(decimal_string(1234567890), "1234567890");
    assert_eq!(decimal_string(u64::MAX), "18446744073709551615");
    assert_eq!(usize_string(2048), "2048");
}

#[test]
fn signed_numerals() {
    assert_eq!(i32_string(0), "0");
    assert_eq!(i32_string(42), "42");
    assert_eq!(i32_string(-1), "-1");
    assert_eq!(i32_string(i32::MAX), "2147483647");
    assert_eq!(i32_string(i32::MIN), "-2147483648");
}

#[test]
fn joining() {
    assert_eq!(join2("a", "b"), "ab");
    assert_eq!(join3("a", "_", "b"), "a_b");
    assert_eq!(join_all(&vec![], ", "), "");
    assert_eq!(join_all(&vec!["x".to_string()], ", "), "x");
    assert_eq!(join_all(&vec!["x".to_string(), "y".to_string(), "z".to_string()], ", "), "x, y, z");
}

// ---- types ----

fn array(base: Ty, len: usize) -> Ty {
    Ty::Array(Box::new(base), len)
}

fn pointer(base: Ty) -> Ty {
    Ty::Pointer(Box::new(base))
}

#[test]
fn type_equality_and_copy() {
    let t = pointer(array(array(Ty::Int32, 3), 2));
    assert!(t.same(&t.clone()));
    assert_eq!(t.clone(), t);
    assert!(!t.same(&pointer(array(array(Ty::Int32, 2), 3))));
    assert!(!Ty::Int32.same(&Ty::Unit));
    assert!(Ty::Int32.check_i32());
    assert!(!pointer(Ty::Int32).check_i32());
    assert!(Ty::Unit.check_unit());
    assert!(pointer(Ty::Int32).points_to(&Ty::Int32));
    assert!(!pointer(Ty::Int32).points_to(&Ty::Unit));
    assert!(!Ty::Int32.points_to(&Ty::Int32));
}

#[test]
fn array_types_from_dimensions() {
    assert_eq!(array_type_of(&vec![]), Ty::Int32);
    assert_eq!(array_type_of(&vec![5]), array(Ty::Int32, 5));
    assert_eq!(array_type_of(&vec![2, 3]), array(array(Ty::Int32, 3), 2));
}

#[test]
fn rank_and_size_of_arrays() {
    assert_eq!(rank_of(&Ty::Int32), 0);
    assert_eq!(rank_of(&array_type_of(&vec![2, 3, 4])), 3);
    assert_eq!(get_size_form_ty(&Ty::Int32), 1);
    assert_eq!(get_size_form_ty(&array_type_of(&vec![2, 3, 4])), 24);
    assert_eq!(get_size_form_ty(&array_type_of(&vec![7])), 7);
    let w = AsmWriter::new();
    assert_eq!(w.to_size(&array_type_of(&vec![5, 6])), 30);
}

// ---- labels ----

#[test]
fn front_end_labels_count_separately() {
    let mut l = MemLabel::new();
    assert_eq!(
        l.if_label(),
        ("%Then_0".to_string(), "%Else_0".to_string(), "%End_0".to_string())
    );
    assert_eq!(
        l.while_label(),
        ("%Entry_0".to_string(), "%Body_0".to_string(), "%While_End_0".to_string())
    );
    assert_eq!(
        l.if_label(),
        ("%Then_1".to_string(), "%Else_1".to_string(), "%End_1".to_string())
    );
    assert_eq!(
        l.while_label(),
        ("%Entry_1".to_string(), "%Body_1".to_string(), "%While_End_1".to_string())
    );
    assert_eq!(l.if_counter, 2);
    assert_eq!(l.while_counter, 2);
}

#[test]
fn writer_labels_count_separately() {
    let mut l = IrLabel::new();
    assert_eq!(l.local_var(), "@var0");
    assert_eq!(l.local_var(), "@var1");
    assert_eq!(l.local_arr(), "@arr0");
    assert_eq!(l.global_var(), "@Gvar0");
    assert_eq!(l.global_arr(), "@Garr0");
    assert_eq!(l.global_arr(), "@Garr1");
    assert_eq!(l.local_arr(), "@arr1");
    assert_eq!(l.global_var(), "@Gvar1");
}

#[test]
fn data_labels() {
    let mut l = AsmLabel::new();
    assert_eq!(l.var(), "var_0");
    assert_eq!(l.var(), "var_1");
    assert_eq!(l.var, 2);
}

// ---- the front-end scope ----

#[test]
fn innermost_binding_wins_and_exit_restores() {
    let mut s = Scope::new();
    let x = "x".to_string();
    s.new_value(x.clone(), Entry::Const(1));
    assert_eq!(s.get(&x), Some(Entry::Const(1)));
    s.enter();
    assert_eq!(s.get(&x), Some(Entry::Const(1)));
    s.new_value(x.clone(), Entry::Const(2));
    assert_eq!(s.get(&x), Some(Entry::Const(2)));
    assert_eq!(s.value(&x), Entry::Const(2));
    s.enter();
    s.new_value(x.clone(), Entry::Value(Val { id: 9 }));
    assert_eq!(s.get(&x), Some(Entry::Value(Val { id: 9 })));
    s.exit();
    assert_eq!(s.get(&x), Some(Entry::Const(2)));
    s.exit();
    assert_eq!(s.get(&x), Some(Entry::Const(1)));
}

#[test]
fn rebinding_in_one_frame_hides_the_older_binding() {
    let mut s = Scope::new();
    let x = "x".to_string();
    let y = "y".to_string();
    s.new_value(x.clone(), Entry::Const(1));
    s.new_value(y.clone(), Entry::Const(5));
    s.new_value(x.clone(), Entry::Const(3));
    assert_eq!(s.get(&x), Some(Entry::Const(3)));
    assert_eq!(s.get(&y), Some(Entry::Const(5)));
    assert_eq!(s.get(&"z".to_string()), None);
}

#[test]
fn exit_on_no_frame_does_nothing() {
    let mut s = Scope::new();
    s.exit();
    s.exit();
    assert_eq!(s.values.len(), 0);
    assert_eq!(s.get(&"x".to_string()), None);
}

#[test]
fn function_table_and_cursors() {
    let mut s = Scope::new();
    assert!(s.is_global());
    let f = "f".to_string();
    assert_eq!(s.get_func(&f), None);
    s.new_func(f.clone(), Func { id: 1 });
    s.new_func("g".to_string(), Func { id: 2 });
    s.new_func(f.clone(), Func { id: 3 });
    assert_eq!(s.get_func(&f), Some(Func { id: 3 }));
    assert_eq!(s.func(&"g".to_string()), Func { id: 2 });
    s.set_cur_func(Some(Func { id: 3 }));
    s.set_cur_bb(Some(Bb { id: 4 }));
    assert!(!s.is_global());
    assert_eq!(s.cur_func(), Func { id: 3 });
    assert_eq!(s.cur_bb(), Bb { id: 4 });
    s.loop_info_mut().push((Bb { id: 5 }, Bb { id: 6 }));
    assert_eq!(s.loop_info(), &vec![(Bb { id: 5 }, Bb { id: 6 })]);
    s.set_array_info(vec![2, 3]);
    assert_eq!(s.array_info(), &vec![2, 3]);
    assert_eq!(s.label_mut().if_label().0, "%Then_0");
    assert_eq!(s.label.if_counter, 1);
}

// ---- stamps ----

#[test]
fn stamps_of_values() {
    let mut info = Info::new();
    assert_eq!(info.counter(), 0);
    let a = Val { id: 10 };
    let b = Val { id: 11 };
    info.new_info(a);
    assert_eq!(info.info(a), Some(ValueInfo { birth: 0, death: 0 }));
    info.new_info(b);
    assert_eq!(info.info(b), Some(ValueInfo { birth: 1, death: 1 }));
    assert_eq!(info.counter(), 2);
    info.touch(a);
    assert_eq!(info.info(a), Some(ValueInfo { birth: 0, death: 2 }));
    assert_eq!(info.info(b), Some(ValueInfo { birth: 1, death: 1 }));
    info.touch(Val { id: 99 });
    assert_eq!(info.info(Val { id: 99 }), None);
    assert_eq!(info.counter(), 2);
    assert!(info.info_mut(b, ValueInfo { birth: 1, death: 7 }));
    assert_eq!(info.info(b), Some(ValueInfo { birth: 1, death: 7 }));
    assert!(!info.info_mut(Val { id: 99 }, ValueInfo { birth: 0, death: 0 }));
    assert_eq!(info.info(Val { id: 99 }), None);
}

#[test]
fn stamps_of_zero_arrays() {
    let mut info = Info::new();
    let a = Val { id: 3 };
    assert_eq!(info.array_info(a), None);
    info.new_array_info(a, vec![2, 5]);
    assert_eq!(info.array_info(a), Some(&vec![2, 5]));
    assert_eq!(info.counter(), 0);
}

// ---- initializers ----

fn items(v: Vec<Init<i32>>) -> Init<i32> {
    Init::List(v)
}

fn n(x: i32) -> Init<i32> {
    Init::Item(x)
}

#[test]
fn sizes_of_sub_arrays() {
    assert_eq!(suffix_products(&vec![2, 3, 4]), Some(vec![24, 12, 4, 1]));
    assert_eq!(suffix_products(&vec![]), Some(vec![1]));
    assert_eq!(suffix_products(&vec![2, 0, 4]), None);
    assert_eq!(suffix_products(&vec![usize::MAX, 2]), None);
}

#[test]
fn flat_list_is_padded_with_zeros() {
    assert_eq!(flatten(&items(vec![n(1), n(2), n(3)]), &vec![5], 0), Ok(vec![1, 2, 3, 0, 0]));
    assert_eq!(flatten(&items(vec![]), &vec![2, 2], 0), Ok(vec![0, 0, 0, 0]));
    assert_eq!(flatten(&items(vec![n(1), n(2), n(3)]), &vec![2, 2], 0), Ok(vec![1, 2, 3, 0]));
}

#[test]
fn nested_lists_fill_rows() {
    let init = items(vec![items(vec![n(1), n(2)]), items(vec![n(3), n(4)])]);
    assert_eq!(flatten(&init, &vec![2, 2], 0), Ok(vec![1, 2, 3, 4]));
    let init = items(vec![items(vec![n(1)]), items(vec![n(3)])]);
    assert_eq!(flatten(&init, &vec![2, 2], 0), Ok(vec![1, 0, 3, 0]));
}

#[test]
fn nested_list_starts_at_the_next_row() {
    // int a[2][3] = {1, {2}};  the list starts the next row of three
    let init = items(vec![n(1), items(vec![n(2)])]);
    assert_eq!(flatten(&init, &vec![2, 3], 9), Ok(vec![1, 9, 9, 2, 9, 9]));
}

#[test]
fn nested_list_takes_the_largest_aligned_sub_array() {
    // int a[2][3][4] = {1, 2, 3, 4, {5}, {6}, {7, 8}};
    let init = items(vec![
        n(1),
        n(2),
        n(3),
        n(4),
        items(vec![n(5)]),
        items(vec![n(6)]),
        items(vec![n(7), n(8)]),
    ]);
    let flat = flatten(&init, &vec![2, 3, 4], 0).unwrap();
    assert_eq!(flat.len(), 24);
    let mut want = vec![1, 2, 3, 4, 5, 0, 0, 0, 6, 0, 0, 0, 7, 8];
    want.resize(24, 0);
    assert_eq!(flat, want);
}

#[test]
fn flat_length_is_the_product_of_the_dimensions() {
    for dims in [vec![1], vec![3], vec![2, 2], vec![4, 1, 3], vec![2, 3, 4, 5]] {
        let flat = flatten(&items(vec![n(7)]), &dims, 0).unwrap();
        assert_eq!(flat.len(), dims.iter().product::<usize>());
        assert_eq!(flat[0], 7);
        assert!(flat[1..].iter().all(|x| *x == 0));
    }
}

#[test]
fn initializers_that_do_not_fit() {
    assert_eq!(flatten(&items(vec![n(1), n(2), n(3)]), &vec![2], 0), Err(Error::BadInitializer));
    assert_eq!(flatten(&n(1), &vec![2], 0), Err(Error::BadInitializer));
    assert_eq!(flatten(&items(vec![]), &vec![], 0), Err(Error::BadInitializer));
    // a list within the list of a one-dimensional array has no sub-array to fill
    assert_eq!(flatten(&items(vec![items(vec![n(1)])]), &vec![2], 0), Err(Error::BadInitializer));
    // three rows for two
    let init = items(vec![items(vec![n(1)]), items(vec![n(2)]), items(vec![n(3)])]);
    assert_eq!(flatten(&init, &vec![2, 2], 0), Err(Error::BadInitializer));
    assert_eq!(flatten(&items(vec![]), &vec![2, 0], 0), Err(Error::BadDimension));
    assert_eq!(flatten(&items(vec![]), &vec![usize::MAX, 4], 0), Err(Error::BadDimension));
}

// ---- names in the textual form ----

#[test]
fn names_of_values_in_text() {
    let mut s = IrScope::new();
    let a = Val { id: 1 };
    assert_eq!(s.get(a), None);
    let r0 = s.new_register();
    assert_eq!(r0, IrEntry::Register(0));
    assert_eq!(r0.turn_into(), "%0");
    s.new_value(a, r0);
    assert_eq!(s.get(a), Some("%0".to_string()));
    assert_eq!(s.value(a), &IrEntry::Register(0));
    assert_eq!(s.new_register(), IrEntry::Register(1));
    s.new_value(a, IrEntry::Label("@var3".to_string()));
    assert_eq!(s.get(a), Some("@var3".to_string()));
    s.clear_register();
    assert_eq!(s.new_register(), IrEntry::Register(0));
    s.set_cur_func(Some(Func { id: 2 }));
    s.set_cur_value(Some(a));
    assert_eq!(s.cur_func(), Func { id: 2 });
    assert_eq!(s.cur_value(), a);
    assert_eq!(s.label_mut().local_var(), "@var0");
}

#[test]
fn lines_of_the_textual_form() {
    let mut w = IrWriter::new();
    w.note("// note");
    w.line();
    w.decl("@getarray", &vec![pointer(Ty::Int32)], &Ty::Int32);
    w.decl("@putarray", &vec![Ty::Int32, pointer(Ty::Int32)], &Ty::Unit);
    w.decl("@starttime", &vec![], &Ty::Unit);
    w.func_bg(
        "@f",
        &Ty::Int32,
        &vec![
            ("@var0".to_string(), Ty::Int32),
            ("@var1".to_string(), pointer(array(Ty::Int32, 2))),
        ],
    );
    w.bb_bg("%entry");
    w.local_alloc("@arr0", &array(array(Ty::Int32, 3), 2));
    w.op3("add", "%2", "%0", "1");
    w.load("%0", "@var0");
    w.store("@var0", "7");
    w.get_elem_ptr("%3", "@arr0", "1");
    w.get_ptr("%4", "%1", "%0");
    w.call(Some("%5"), "@g", &vec!["1".to_string(), "%0".to_string()]);
    w.call(None, "@h", &vec![]);
    w.branch("%2", "%Then_0", "%End_0");
    w.jump("%End_0");
    w.ret("%5");
    w.ret("");
    w.func_ed();
    w.func_bg("@v", &Ty::Unit, &vec![]);
    w.global_alloc("@Garr0", &array(Ty::Int32, 2), "{1, 2}");
    let want = "// note\n\n\
decl @getarray(*i32): i32\n\
decl @putarray(i32, *i32)\n\
decl @starttime()\n\
fun @f(@var0: i32, @var1: *[i32, 2]): i32 {\n\
%entry:\n\
\x20 @arr0 = alloc [[i32, 3], 2]\n\
\x20 %2 = add %0, 1\n\
\x20 %0 = load @var0\n\
\x20 store 7, @var0\n\
\x20 %3 = getelemptr @arr0, 1\n\
\x20 %4 = getptr %1, %0\n\
\x20 %5 = call @g(1, %0)\n\
\x20 call @h()\n\
\x20 br %2, %Then_0, %End_0\n\
\x20 jump %End_0\n\
\x20 ret %5\n\
\x20 ret \n\
}\n\
fun @v() {\n\
global @Garr0 = alloc [i32, 2], {1, 2}\n";
    assert_eq!(w.text, want);
    assert_eq!(w.ty(&pointer(pointer(Ty::Int32))), "**i32");
    assert_eq!(w.ty(&Ty::Unit), "unit");
    assert_eq!(w.to_type_zero_array(&vec![2, 3]), array(array(Ty::Int32, 3), 2));
}

// ---- registers ----

#[test]
fn register_file() {
    let regs = Registers::new();
    let names: Vec<&str> = regs.registers().iter().map(|r| r.name()).collect();
    assert_eq!(names, vec!["x0", "t0", "t1", "t2", "t3", "t4", "t5", "t6"]);
    let fixed: Vec<bool> = regs.registers().iter().map(|r| r.fixed).collect();
    assert_eq!(fixed, vec![true, false, false, false, false, false, false, true]);
    assert!(regs.registers().iter().all(|r| !r.used && r.stamp == 0 && r.value.is_none()));
    assert_eq!(regs.find("t3"), Some(4));
    assert_eq!(regs.find("a0"), None);
    assert_eq!(regs.register("t6").name(), "t6");
    assert!(regs.register("x0").fixed);
    let r = Register::new("s1".to_string());
    assert!(!r.fixed && !r.used);
    assert!(Register::with_fixed("s2".to_string()).fixed);
}

#[test]
fn register_can_be_changed_by_name() {
    let mut regs = Registers::new();
    regs.register_mut("t1").used = true;
    regs.register_mut("t1").stamp = 5;
    assert!(regs.register("t1").used);
    assert_eq!(regs.register("t1").stamp, 5);
    assert!(!regs.register("t0").used);
    regs.registers_mut()[1].value = Some(Val { id: 3 });
    assert_eq!(regs.register("t0").value, Some(Val { id: 3 }));
}

#[test]
fn first_free_register_is_chosen() {
    let mut s = AsmScope::new();
    let mut w = AsmWriter::new();
    assert_eq!(s.new_register(&mut w), Some(1));
    s.register_mut("t0").used = true;
    s.register_mut("t1").used = true;
    assert_eq!(s.new_register(&mut w), Some(3));
    assert_eq!(w.text, "");
    assert_eq!(s.register("t2").name(), "t2");
}

#[test]
fn oldest_register_is_spilled_when_none_is_free() {
    let mut s = AsmScope::new();
    let mut w = AsmWriter::new();
    let stamps = [9, 4, 7, 4, 8, 6];
    for (k, r) in s.registers_mut().iter_mut().enumerate() {
        r.used = true;
        if (1..=6).contains(&k) {
            r.stamp = stamps[k - 1];
        }
    }
    s.set_used_slots(3);
    // t1 and t3 share the least stamp; the first of them goes
    assert_eq!(s.new_register(&mut w), Some(2));
    assert_eq!(w.text, "  sw t1, 12(sp)\n");
}

#[test]
fn no_register_when_all_are_fixed() {
    let mut s = AsmScope::new();
    let mut w = AsmWriter::new();
    for r in s.registers_mut().iter_mut() {
        r.fixed = true;
    }
    assert_eq!(s.new_register(&mut w), None);
    assert_eq!(w.text, "");
}

#[test]
fn slots_and_places() {
    let mut s = AsmScope::new();
    assert_eq!(s.new_slot(), 0);
    assert_eq!(s.new_slot(), 1);
    assert_eq!(s.new_slots(4), 2);
    assert_eq!(s.new_slot(), 6);
    let a = Val { id: 1 };
    let b = Val { id: 2 };
    s.spill(None);
    assert_eq!(s.used_slots, 7);
    s.spill(Some(a));
    assert_eq!(s.get(&a), Some(&AsmEntry::Slot(7)));
    assert_eq!(s.used_slots, 8);
    s.new_value(b, AsmEntry::Register("t0".to_string()));
    assert_eq!(s.value(&b), &AsmEntry::Register("t0".to_string()));
    s.value_mut(&b, AsmEntry::Label("var_0".to_string()));
    assert_eq!(s.value(&b), &AsmEntry::Label("var_0".to_string()));
    assert_eq!(s.get(&Val { id: 5 }), None);
    s.set_total_slots(9);
    s.set_caller(true);
    assert_eq!(s.total_slots(), 9);
    assert!(s.caller());
    s.set_cur_func(Some(Func { id: 1 }));
    s.set_cur_value(Some(a));
    assert_eq!(s.cur_func(), Func { id: 1 });
    assert_eq!(s.cur_value(), a);
    assert_eq!(s.label_mut().var(), "var_0");
}

// ---- frames ----

fn frame(total: usize, caller: bool) -> (String, String) {
    let mut s = AsmScope::new();
    s.set_total_slots(total);
    s.set_caller(caller);
    let mut open = AsmWriter::new();
    open.prologue("f", &s);
    let mut close = AsmWriter::new();
    close.epilogue(&s);
    (open.text, close.text)
}

#[test]
fn small_frame_uses_immediates() {
    let (open, close) = frame(4, false);
    assert_eq!(open, "  .globl f\nf:\n  addi sp, sp, -16\n");
    assert_eq!(close, "  addi sp, sp, 16\n  ret \n");
    let (open, close) = frame(4, true);
    assert_eq!(open, "  .globl f\nf:\n  addi sp, sp, -16\n  sw ra, 12(sp)\n");
    assert_eq!(close, "  lw ra, 12(sp)\n  addi sp, sp, 16\n  ret \n");
}

#[test]
fn frame_of_508_bytes_still_uses_immediates() {
    let (open, close) = frame(127, true);
    assert_eq!(open, "  .globl f\nf:\n  addi sp, sp, -508\n  sw ra, 504(sp)\n");
    assert_eq!(close, "  lw ra, 504(sp)\n  addi sp, sp, 508\n  ret \n");
}

#[test]
fn frame_of_512_bytes_goes_through_t0() {
    let (open, close) = frame(128, true);
    assert_eq!(open, "  .globl f\nf:\n  li t0, 512\n  sub sp, sp, t0\n  sw ra, 508(sp)\n");
    assert_eq!(close, "  lw ra, 508(sp)\n  li t0, 512\n  add sp, sp, t0\n  ret \n");
}

#[test]
fn large_frame_materializes_the_place_of_ra() {
    let (open, close) = frame(1000, true);
    assert_eq!(
        open,
        "  .globl f\nf:\n  li t0, 4000\n  sub sp, sp, t0\n  li t0, 3996\n  add t0, sp, t0\n  sw ra, 0(t0)\n"
    );
    assert_eq!(
        close,
        "  li t0, 3996\n  add t0, sp, t0\n  lw ra, 0(t0)\n  li t0, 4000\n  add sp, sp, t0\n  ret \n"
    );
}

#[test]
fn lines_of_assembly() {
    let mut w = AsmWriter::new();
    w.note("  .word 1");
    w.line();
    w.op1("ret", "");
    w.op2("li", "t0", "4");
    w.op3("add", "t0", "t1", "t2");
    assert_eq!(w.text, "  .word 1\n\n  ret \n  li t0, 4\n  add t0, t1, t2\n");
}

#[test]
fn instructions_as_text() {
    let mut program = Prog::new();
    let putint = program.new_func_decl("@putint".to_string(), vec![Ty::Int32], Ty::Unit);
    let f = program.new_func_def("@f".to_string(), vec![], Ty::Int32);
    let entry = program.new_bb(f, "%entry".to_string());
    let then_bb = program.new_bb(f, "%Then_0".to_string());
    let end_bb = program.new_bb(f, "%End_0".to_string());
    let cases: Vec<(Inst, &str)> = vec![
        (Inst::Li(Reg::T0, -5), "  li t0, -5\n"),
        (Inst::La(Reg::T1, "var_0".to_string()), "  la t1, var_0\n"),
        (Inst::Mv(Reg::T2, Reg::A(3)), "  mv t2, a3\n"),
        (Inst::Lw(Reg::T0, Reg::T6), "  lw t0, 0(t6)\n"),
        (Inst::Sw(Reg::T0, Reg::T1), "  sw t0, 0(t1)\n"),
        (Inst::LwSp(Reg::A(0), 12), "  lw a0, 12(sp)\n"),
        (Inst::SwSp(Reg::A(7), 2044), "  sw a7, 2044(sp)\n"),
        (Inst::AddiSp(Reg::T0, 8), "  addi t0, sp, 8\n"),
        (Inst::AddSp(Reg::T6, Reg::T6), "  add t6, sp, t6\n"),
        (Inst::Op(Alu::Add, Reg::T0, Reg::T0, Reg::T1), "  add t0, t0, t1\n"),
        (Inst::Op(Alu::Sub, Reg::T0, Reg::T0, Reg::T1), "  sub t0, t0, t1\n"),
        (Inst::Op(Alu::Mul, Reg::T0, Reg::T0, Reg::T1), "  mul t0, t0, t1\n"),
        (Inst::Op(Alu::Div, Reg::T0, Reg::T0, Reg::T1), "  div t0, t0, t1\n"),
        (Inst::Op(Alu::Rem, Reg::T0, Reg::T0, Reg::T1), "  rem t0, t0, t1\n"),
        (Inst::Op(Alu::And, Reg::T0, Reg::T0, Reg::T1), "  and t0, t0, t1\n"),
        (Inst::Op(Alu::Or, Reg::T0, Reg::T0, Reg::T1), "  or t0, t0, t1\n"),
        (Inst::Op(Alu::Xor, Reg::T0, Reg::T0, Reg::T1), "  xor t0, t0, t1\n"),
        (Inst::Op(Alu::Slt, Reg::T0, Reg::T0, Reg::T1), "  slt t0, t0, t1\n"),
        (Inst::Op(Alu::Sgt, Reg::T0, Reg::T0, Reg::T1), "  sgt t0, t0, t1\n"),
        (Inst::Seqz(Reg::T0, Reg::T0), "  seqz t0, t0\n"),
        (Inst::Snez(Reg::T0, Reg::T0), "  snez t0, t0\n"),
        (Inst::Bnez(Reg::T0, then_bb), "  bnez t0, f_Then_0\n"),
        (Inst::J(end_bb), "  j f_End_0\n"),
        (Inst::Call(putint), "  call putint\n"),
        (Inst::Label(entry), "f_entry:\n"),
        (Inst::Label(Bb { id: 99 }), ":\n"),
        (Inst::Call(Func { id: 99 }), "  call \n"),
    ];
    for (inst, want) in cases {
        let mut out = "x".to_string();
        inst.write(&program, &mut out);
        assert_eq!(out, format!("x{}", want));
    }
}
