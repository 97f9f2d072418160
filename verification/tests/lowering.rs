//! What lowering makes of single constructs, what the two writers make of
//! the result, and what each of them refuses.

use sysyc::ast::{
    AddExp, AddOp, Assign, Block, BlockItem, Call, CompItem, CompUnit, ConstDecl, ConstDef,
    ConstExp, ConstInitVal, Decl, EqExp, EqOp, Exp, FuncDef, FuncParam, FuncType, If,
    InitVal, LAndExp, LOrExp, LVal, MulExp, MulOp, PrimaryExp, RelExp, RelOp, Return, Stmt,
    UnaryExp, UnaryOp, VarDecl, VarDef, While,
};
use sysyc::mem::emit::Error;
use sysyc::mem::generate_mem;
use sysyc::ir::generate_ir;
use sysyc::ir::scope::Scope as IrScope;
use sysyc::ir::translate::{plan, translate_load};
use sysyc::ir::writer::{EmitError, Writer as IrWriter};
use sysyc::mem::create::{classify, next_if_label, next_while_label, Access};
use sysyc::mem::info::{Info, ValueInfo};
use sysyc::mem::scope::{Entry, Scope};
use sysyc::program::entities::{BinOp, Func, Prog, Val, ValueKind};
use sysyc::program::types::Ty;
use sysyc::riscv::generate_asm;
use sysyc::riscv::lower::{strip, words, write_global, AsmError};
use sysyc::riscv::scope::Scope as AsmScope;
use sysyc::riscv::writer::Writer as AsmWriter;
use sysyc::tools::{
    global_array_init, global_const_array_init, local_array_init, local_const_array_init,
};

// ---- building syntax trees ----

fn primary(p: PrimaryExp) -> Exp {
    Exp {
        lor: LOrExp::LAnd(LAndExp::Eq(EqExp::Rel(RelExp::Add(AddExp::Mul(MulExp::Unary(
            UnaryExp::Primary(p),
        )))))),
    }
}

fn num(n: i32) -> Exp {
    primary(PrimaryExp::Num(n))
}

fn var(id: &str) -> Exp {
    primary(PrimaryExp::LVal(LVal { id: id.to_string(), dims: vec![] }))
}

fn at(id: &str, dims: Vec<Exp>) -> Exp {
    primary(PrimaryExp::LVal(LVal { id: id.to_string(), dims }))
}

fn unary_of(e: Exp) -> UnaryExp {
    UnaryExp::Primary(PrimaryExp::Exp(Box::new(e)))
}

fn mul_of(e: Exp) -> MulExp {
    MulExp::Unary(unary_of(e))
}

fn add_of(e: Exp) -> AddExp {
    AddExp::Mul(mul_of(e))
}

fn rel_of(e: Exp) -> RelExp {
    RelExp::Add(add_of(e))
}

fn eq_of(e: Exp) -> EqExp {
    EqExp::Rel(rel_of(e))
}

fn land_of(e: Exp) -> LAndExp {
    LAndExp::Eq(eq_of(e))
}

fn lor_of(e: Exp) -> LOrExp {
    LOrExp::LAnd(land_of(e))
}

fn from_unary(u: UnaryExp) -> Exp {
    Exp { lor: LOrExp::LAnd(LAndExp::Eq(EqExp::Rel(RelExp::Add(AddExp::Mul(MulExp::Unary(u)))))) }
}

fn call(id: &str, args: Vec<Exp>) -> Exp {
    from_unary(UnaryExp::Call(Box::new(Call { id: id.to_string(), args })))
}

fn unary(op: UnaryOp, e: Exp) -> Exp {
    from_unary(UnaryExp::Unary(op, Box::new(unary_of(e))))
}

fn mul(a: Exp, op: MulOp, b: Exp) -> Exp {
    Exp {
        lor: LOrExp::LAnd(LAndExp::Eq(EqExp::Rel(RelExp::Add(AddExp::Mul(MulExp::Mul(
            Box::new(mul_of(a)),
            op,
            unary_of(b),
        )))))),
    }
}

fn add(a: Exp, op: AddOp, b: Exp) -> Exp {
    Exp {
        lor: LOrExp::LAnd(LAndExp::Eq(EqExp::Rel(RelExp::Add(AddExp::Add(
            Box::new(add_of(a)),
            op,
            mul_of(b),
        ))))),
    }
}

fn rel(a: Exp, op: RelOp, b: Exp) -> Exp {
    Exp {
        lor: LOrExp::LAnd(LAndExp::Eq(EqExp::Rel(RelExp::Rel(
            Box::new(rel_of(a)),
            op,
            add_of(b),
        )))),
    }
}

fn eq(a: Exp, op: EqOp, b: Exp) -> Exp {
    Exp { lor: LOrExp::LAnd(LAndExp::Eq(EqExp::Eq(Box::new(eq_of(a)), op, rel_of(b)))) }
}

fn land(a: Exp, b: Exp) -> Exp {
    Exp { lor: LOrExp::LAnd(LAndExp::LAnd(Box::new(land_of(a)), eq_of(b))) }
}

fn lor(a: Exp, b: Exp) -> Exp {
    Exp { lor: LOrExp::LOr(Box::new(lor_of(a)), land_of(b)) }
}

fn ret(e: Exp) -> BlockItem {
    BlockItem::Stmt(Stmt::Return(Return { exp: Some(e) }))
}

fn assign(id: &str, dims: Vec<Exp>, e: Exp) -> Stmt {
    Stmt::Assign(Assign { lval: LVal { id: id.to_string(), dims }, exp: e })
}

fn block(items: Vec<BlockItem>) -> Stmt {
    Stmt::Block(Box::new(Block { items }))
}

fn local(id: &str, init: Option<Exp>) -> BlockItem {
    BlockItem::Decl(Decl::Var(VarDecl {
        defs: vec![VarDef { id: id.to_string(), dims: vec![], init: init.map(InitVal::Exp) }],
    }))
}

fn local_array(id: &str, dims: Vec<i32>, init: Option<InitVal>) -> BlockItem {
    BlockItem::Decl(Decl::Var(VarDecl {
        defs: vec![VarDef {
            id: id.to_string(),
            dims: dims.into_iter().map(|d| ConstExp { exp: num(d) }).collect(),
            init,
        }],
    }))
}

fn list(items: Vec<InitVal>) -> InitVal {
    InitVal::List(Box::new(items))
}

fn item(n: i32) -> InitVal {
    InitVal::Exp(num(n))
}

fn func(ty: FuncType, id: &str, params: Vec<FuncParam>, items: Vec<BlockItem>) -> CompItem {
    CompItem::Func(FuncDef { ty, id: id.to_string(), params, body: Block { items } })
}

fn int_param(id: &str) -> FuncParam {
    FuncParam { id: id.to_string(), dims: None }
}

fn main_of(items: Vec<BlockItem>) -> CompUnit {
    CompUnit { items: vec![func(FuncType::Int, "main", vec![], items)] }
}


fn lowered(unit: &CompUnit) -> (Prog, Info) {
    generate_mem(unit).expect("the program lowers")
}

fn main_function(program: &Prog) -> Func {
    Func { id: program.funcs.iter().position(|f| f.name == "@main").unwrap() }
}

/// The kinds of the instructions of the blocks of `main`, in layout order.
fn kinds_of_main(program: &Prog) -> Vec<&ValueKind> {
    let f = main_function(program);
    let mut out = vec![];
    for bb in &program.funcs[f.id].bbs {
        for v in &program.bbs[bb.id].insts {
            out.push(&program.values[v.id].kind);
        }
    }
    out
}

fn array(base: Ty, len: usize) -> Ty {
    Ty::Array(Box::new(base), len)
}

fn pointer(base: Ty) -> Ty {
    Ty::Pointer(Box::new(base))
}

// ---- evaluation ----

fn value_of(e: &Exp) -> Option<i32> {
    e.evaluate(&Scope::new())
}

#[test]
fn arithmetic_is_evaluated() {
    assert_eq!(value_of(&add(num(1), AddOp::Add, mul(num(2), MulOp::Mul, num(3)))), Some(7));
    assert_eq!(value_of(&add(num(1), AddOp::Sub, num(5))), Some(-4));
    assert_eq!(value_of(&mul(num(7), MulOp::Div, num(2))), Some(3));
    assert_eq!(value_of(&mul(num(-7), MulOp::Div, num(2))), Some(-3));
    assert_eq!(value_of(&mul(num(7), MulOp::Mod, num(3))), Some(1));
    assert_eq!(value_of(&mul(num(-7), MulOp::Mod, num(3))), Some(-1));
    assert_eq!(value_of(&unary(UnaryOp::Neg, num(5))), Some(-5));
    assert_eq!(value_of(&unary(UnaryOp::Pos, num(5))), Some(5));
    assert_eq!(value_of(&unary(UnaryOp::Not, num(5))), Some(0));
    assert_eq!(value_of(&unary(UnaryOp::Not, num(0))), Some(1));
}

#[test]
fn arithmetic_wraps() {
    assert_eq!(value_of(&add(num(i32::MAX), AddOp::Add, num(1))), Some(i32::MIN));
    assert_eq!(value_of(&add(num(i32::MIN), AddOp::Sub, num(1))), Some(i32::MAX));
    assert_eq!(value_of(&mul(num(65536), MulOp::Mul, num(65536))), Some(0));
    assert_eq!(value_of(&unary(UnaryOp::Neg, num(i32::MIN))), Some(i32::MIN));
    assert_eq!(value_of(&mul(num(i32::MIN), MulOp::Div, num(-1))), Some(i32::MIN));
    assert_eq!(value_of(&mul(num(i32::MIN), MulOp::Mod, num(-1))), Some(0));
}

#[test]
fn division_by_zero_has_no_value() {
    assert_eq!(value_of(&mul(num(1), MulOp::Div, num(0))), None);
    assert_eq!(value_of(&mul(num(1), MulOp::Mod, num(0))), None);
}

#[test]
fn comparisons_give_zero_or_one() {
    assert_eq!(value_of(&rel(num(1), RelOp::Lt, num(2))), Some(1));
    assert_eq!(value_of(&rel(num(2), RelOp::Lt, num(2))), Some(0));
    assert_eq!(value_of(&rel(num(2), RelOp::Le, num(2))), Some(1));
    assert_eq!(value_of(&rel(num(3), RelOp::Gt, num(2))), Some(1));
    assert_eq!(value_of(&rel(num(1), RelOp::Ge, num(2))), Some(0));
    assert_eq!(value_of(&eq(num(2), EqOp::Eq, num(2))), Some(1));
    assert_eq!(value_of(&eq(num(2), EqOp::Ne, num(2))), Some(0));
    assert_eq!(value_of(&eq(num(2), EqOp::Ne, num(3))), Some(1));
}

#[test]
fn logic_is_decided_by_the_left_side_when_it_can_be() {
    assert_eq!(value_of(&land(num(0), call("f", vec![]))), Some(0));
    assert_eq!(value_of(&land(num(0), var("nowhere"))), Some(0));
    assert_eq!(value_of(&lor(num(3), call("f", vec![]))), Some(1));
    assert_eq!(value_of(&land(num(2), num(7))), Some(7));
    assert_eq!(value_of(&lor(num(0), num(7))), Some(7));
    assert_eq!(value_of(&land(num(2), call("f", vec![]))), None);
    assert_eq!(value_of(&lor(num(0), call("f", vec![]))), None);
    assert_eq!(value_of(&land(call("f", vec![]), num(0))), None);
}

#[test]
fn names_evaluate_when_bound_to_constants() {
    let mut s = Scope::new();
    s.new_value("c".to_string(), Entry::Const(6));
    s.new_value("v".to_string(), Entry::Value(Val { id: 0 }));
    assert_eq!(add(var("c"), AddOp::Add, num(1)).evaluate(&s), Some(7));
    assert_eq!(var("v").evaluate(&s), None);
    assert_eq!(var("unbound").evaluate(&s), None);
    assert_eq!(call("f", vec![]).evaluate(&s), None);
    assert_eq!(ConstExp { exp: var("c") }.evaluate(&s), Some(6));
    assert_eq!(ConstExp { exp: var("c") }.create(&s), 6);
    assert_eq!(ConstExp { exp: var("v") }.evaluate(&s), None);
    s.enter();
    s.new_value("c".to_string(), Entry::Value(Val { id: 1 }));
    assert_eq!(var("c").evaluate(&s), None);
    s.exit();
    assert_eq!(var("c").evaluate(&s), Some(6));
}

// ---- constant folding ----

#[test]
fn constant_expression_becomes_one_integer() {
    // int main(){ return (1 + 2 * 3 < 10) && 5; }
    let e = land(rel(add(num(1), AddOp::Add, mul(num(2), MulOp::Mul, num(3))), RelOp::Lt, num(10)), num(5));
    let (program, _) = lowered(&main_of(vec![ret(e)]));
    let kinds = kinds_of_main(&program);
    assert_eq!(kinds.len(), 2);
    assert_eq!(kinds[0], &ValueKind::Integer(5));
    assert!(matches!(kinds[1], ValueKind::Return(Some(_))));
}

#[test]
fn constant_part_of_an_expression_is_folded() {
    // int main(){ int a = 1; return a + (2 * 3); }
    let unit = main_of(vec![
        local("a", Some(num(1))),
        ret(add(var("a"), AddOp::Add, mul(num(2), MulOp::Mul, num(3)))),
    ]);
    let (program, _) = lowered(&unit);
    let kinds = kinds_of_main(&program);
    let integers: Vec<i32> = kinds
        .iter()
        .filter_map(|k| if let ValueKind::Integer(n) = k { Some(*n) } else { None })
        .collect();
    assert_eq!(integers, vec![1, 6]);
    let binaries = kinds.iter().filter(|k| matches!(k, ValueKind::Binary(_, _, _))).count();
    assert_eq!(binaries, 1);
}

#[test]
fn named_constant_is_used_as_its_number() {
    // int main(){ const int c = 4; return c * c; }
    let unit = main_of(vec![
        BlockItem::Decl(Decl::Const(ConstDecl {
            defs: vec![ConstDef {
                id: "c".to_string(),
                dims: vec![],
                init: ConstInitVal::Exp(ConstExp { exp: num(4) }),
            }],
        })),
        ret(mul(var("c"), MulOp::Mul, var("c"))),
    ]);
    let (program, _) = lowered(&unit);
    let kinds = kinds_of_main(&program);
    assert_eq!(kinds.len(), 2);
    assert_eq!(kinds[0], &ValueKind::Integer(16));
}

// ---- l-values ----

#[test]
fn access_follows_type_and_number_of_indices() {
    let scalar = pointer(Ty::Int32);
    let matrix = pointer(array(array(Ty::Int32, 3), 2));
    let param = pointer(pointer(array(Ty::Int32, 3)));
    assert_eq!(classify(&scalar, 0), Some(Access::Scalar));
    assert_eq!(classify(&scalar, 1), None);
    assert_eq!(classify(&matrix, 2), Some(Access::Element));
    assert_eq!(classify(&matrix, 1), Some(Access::Slice));
    assert_eq!(classify(&matrix, 0), Some(Access::Slice));
    assert_eq!(classify(&matrix, 3), None);
    assert_eq!(classify(&param, 2), Some(Access::PointerElement));
    assert_eq!(classify(&param, 1), Some(Access::PointerSlice));
    assert_eq!(classify(&param, 0), Some(Access::PointerSlice));
    assert_eq!(classify(&param, 3), None);
    assert_eq!(classify(&pointer(pointer(Ty::Int32)), 1), Some(Access::PointerElement));
    assert_eq!(classify(&Ty::Int32, 0), None);
    assert_eq!(classify(&pointer(Ty::Unit), 0), None);
}

#[test]
fn slice_decays_to_pointer_to_first_element() {
    // void f(int a[]){} int main(){ int m[2][3]; f(m[1]); return 0; }
    let f = func(
        FuncType::Void,
        "f",
        vec![FuncParam { id: "a".to_string(), dims: Some(vec![]) }],
        vec![],
    );
    let main = func(
        FuncType::Int,
        "main",
        vec![],
        vec![
            local_array("m", vec![2, 3], None),
            BlockItem::Stmt(Stmt::Exp(Some(call("f", vec![at("m", vec![num(1)])])))),
            ret(num(0)),
        ],
    );
    let (program, info) = lowered(&CompUnit { items: vec![f, main] });
    let text = generate_ir(&program, &info).unwrap();
    let tail = &text[text.find("// get elem ptr").unwrap()..];
    let call_at = tail.find("call @f(").unwrap();
    let steps: Vec<&str> = tail[..call_at].lines().filter(|l| l.contains("getelemptr")).collect();
    // the stores of the zeros come first; the last two steps are the index and the decay
    let n = steps.len();
    assert!(steps[n - 2].ends_with("= getelemptr @arr0, 1"));
    assert!(steps[n - 1].ends_with(", 0"));
    assert!(tail[call_at..].starts_with("call @f(%"));
}

// ---- stamps ----

#[test]
fn every_value_is_stamped_at_birth_and_at_its_uses() {
    // int main(){ int a = 2; return a + 3; }
    let unit = main_of(vec![local("a", Some(num(2))), ret(add(var("a"), AddOp::Add, num(3)))]);
    let (program, info) = lowered(&unit);
    assert_eq!(info.counter(), program.values.len());
    for id in 0..program.values.len() {
        let s = info.info(Val { id }).expect("every value has stamps");
        assert_eq!(s.birth, id);
        assert!(s.birth <= s.death && s.death <= info.counter());
    }
    // values of main: 2, alloc, store, load, 3, add, ret
    let f = main_function(&program);
    let insts = &program.bbs[program.funcs[f.id].bbs[0].id].insts;
    let first = insts[0].id;
    assert_eq!(program.values[first].kind, ValueKind::Integer(2));
    // the 2 is used by the store, two values later
    assert_eq!(info.info(insts[0]), Some(ValueInfo { birth: first, death: first + 3 }));
    // the alloc is used by the store and last by the load
    assert_eq!(info.info(insts[1]), Some(ValueInfo { birth: first + 1, death: first + 4 }));
    // the return is used by nothing
    assert_eq!(info.info(insts[6]), Some(ValueInfo { birth: first + 6, death: first + 6 }));
}

// ---- the textual form ----

#[test]
fn textual_form_of_a_small_program() {
    // int g = 3; int z[2]; int h[2] = {1, 0};
    // int main(){ int a = g; if (a) a = a - 1; return a; }
    let global = |id: &str, dims: Vec<i32>, init: Option<InitVal>| {
        CompItem::Decl(Decl::Var(VarDecl {
            defs: vec![VarDef {
                id: id.to_string(),
                dims: dims.into_iter().map(|d| ConstExp { exp: num(d) }).collect(),
                init,
            }],
        }))
    };
    let unit = CompUnit {
        items: vec![
            global("g", vec![], Some(InitVal::Exp(num(3)))),
            global("z", vec![2], None),
            global("h", vec![2], Some(list(vec![item(1), item(0)]))),
            func(
                FuncType::Int,
                "main",
                vec![],
                vec![
                    local("a", Some(var("g"))),
                    BlockItem::Stmt(Stmt::If(Box::new(If {
                        cond: var("a"),
                        then: assign("a", vec![], add(var("a"), AddOp::Sub, num(1))),
                        els: None,
                    }))),
                    ret(var("a")),
                ],
            ),
        ],
    };
    let (program, info) = lowered(&unit);
    let text = generate_ir(&program, &info).unwrap();
    let want = "
global @Gvar0 = alloc i32, 3

global @Garr0 = alloc [i32, 2], zeroinit

global @Garr1 = alloc [i32, 2], {1, 0}
decl @getint(): i32
decl @getch(): i32
decl @getarray(*i32): i32
decl @putint(i32)
decl @putch(i32)
decl @putarray(i32, *i32)
decl @starttime()
decl @stoptime()
fun @main(): i32 {
%entry:

// load
  %0 = load @Gvar0

// alloc
  @var0 = alloc i32

// store
  store %0, @var0

// load
  %1 = load @var0

// branch
  br %1, %Then_0, %End_0
%Then_0:

// load
  %2 = load @var0

// binary
  %3 = sub %2, 1

// store
  store %3, @var0

// jump
  jump %End_0
%End_0:

// load
  %4 = load @var0

// return
  ret %4
}
";
    assert_eq!(text, want);
}

#[test]
fn void_function_without_return_gets_a_bare_ret() {
    // void f(int n){} int main(){ f(1); return 0; }
    let f = func(FuncType::Void, "f", vec![int_param("n")], vec![]);
    let main = func(
        FuncType::Int,
        "main",
        vec![],
        vec![BlockItem::Stmt(Stmt::Exp(Some(call("f", vec![num(1)])))), ret(num(0))],
    );
    let (program, info) = lowered(&CompUnit { items: vec![f, main] });
    let text = generate_ir(&program, &info).unwrap();
    assert!(text.contains(
        "fun @f(@var0: i32) {\n%entry:\n\n// alloc\n  @var1 = alloc i32\n\n// store\n  store @var0, @var1\n  ret \n}\n"
    ));
    assert!(text.contains("\n// call\n  call @f(1)\n"));
}

// ---- one end for every block ----

/// `int main(){ int a = 1; return a; a = 2; if (a) return 3; return 4; }`
fn code_after_return() -> CompUnit {
    main_of(vec![
        local("a", Some(num(1))),
        ret(var("a")),
        BlockItem::Stmt(assign("a", vec![], num(2))),
        BlockItem::Stmt(Stmt::If(Box::new(If {
            cond: var("a"),
            then: Stmt::Return(Return { exp: Some(num(3)) }),
            els: None,
        }))),
        ret(num(4)),
    ])
}

#[test]
fn every_written_block_ends_once() {
    for unit in [code_after_return(), main_of(vec![ret(num(0))]), main_of(vec![])] {
        let (program, _) = lowered(&unit);
        for f in 0..program.funcs.len() {
            for block in plan(&program, Func { id: f }) {
                let n = block.insts.len();
                for (k, v) in block.insts.iter().enumerate() {
                    let ends = matches!(
                        program.values[v.id].kind,
                        ValueKind::Return(_) | ValueKind::Jump(_) | ValueKind::Branch(_, _, _)
                    );
                    assert_eq!(ends, block.closed && k == n - 1);
                }
                if n == 0 {
                    assert!(!block.closed);
                }
            }
        }
    }
}

#[test]
fn what_follows_a_return_is_not_written() {
    let (program, info) = lowered(&code_after_return());
    let blocks = plan(&program, main_function(&program));
    // the entry block is cut at its return; the blocks that only the branch
    // behind the return leads to are left out
    assert_eq!(blocks.len(), 1);
    assert_eq!(program.bbs[blocks[0].bb.id].name, "%entry");
    assert_eq!(blocks[0].insts.len(), 5);
    assert!(blocks[0].insts.len() < program.bbs[blocks[0].bb.id].insts.len());
    let text = generate_ir(&program, &info).unwrap();
    assert_eq!(text.matches("  ret ").count(), 1);
    assert!(!text.contains("%Then_0"));
    let text = generate_asm(&program, &info).unwrap();
    assert_eq!(text.matches("  ret ").count(), 1);
}

// ---- global data ----

fn global_array(init: Option<InitVal>) -> CompUnit {
    CompUnit {
        items: vec![CompItem::Decl(Decl::Var(VarDecl {
            defs: vec![VarDef {
                id: "a".to_string(),
                dims: vec![ConstExp { exp: num(2) }, ConstExp { exp: num(3) }],
                init,
            }],
        }))],
    }
}

#[test]
fn all_zero_global_array_is_one_zero_directive() {
    for init in [None, Some(list(vec![item(0)])), Some(list(vec![list(vec![]), list(vec![item(0)])]))] {
        let (program, info) = lowered(&global_array(init));
        assert_eq!(generate_asm(&program, &info).unwrap(), "  .globl var_0\nvar_0:\n  .zero 24\n\n");
        assert_eq!(
            generate_ir(&program, &info).unwrap().lines().nth(1).unwrap(),
            "global @Garr0 = alloc [[i32, 3], 2], zeroinit"
        );
    }
}

#[test]
fn other_global_array_is_a_word_for_each_element() {
    let (program, info) = lowered(&global_array(Some(list(vec![item(0), item(5), list(vec![item(-1)])]))));
    assert_eq!(
        generate_asm(&program, &info).unwrap(),
        "  .globl var_0\nvar_0:\n  .word 0\n  .word 5\n  .word 0\n  .word -1\n  .word 0\n  .word 0\n\n"
    );
    assert_eq!(
        generate_ir(&program, &info).unwrap().lines().nth(1).unwrap(),
        "global @Garr0 = alloc [[i32, 3], 2], {{0, 5, 0}, {-1, 0, 0}}"
    );
}

#[test]
fn constant_global_array() {
    // const int c[3] = {7, 8}; int main(){ return c[1]; }
    let unit = CompUnit {
        items: vec![
            CompItem::Decl(Decl::Const(ConstDecl {
                defs: vec![ConstDef {
                    id: "c".to_string(),
                    dims: vec![ConstExp { exp: num(3) }],
                    init: ConstInitVal::List(Box::new(vec![
                        ConstInitVal::Exp(ConstExp { exp: num(7) }),
                        ConstInitVal::Exp(ConstExp { exp: num(8) }),
                    ])),
                }],
            })),
            func(FuncType::Int, "main", vec![], vec![ret(at("c", vec![num(1)]))]),
        ],
    };
    let (program, info) = lowered(&unit);
    let text = generate_asm(&program, &info).unwrap();
    assert!(text.starts_with("  .globl var_0\nvar_0:\n  .word 7\n  .word 8\n  .word 0\n\n"));
    let init = ConstInitVal::List(Box::new(vec![ConstInitVal::Exp(ConstExp { exp: num(7) })]));
    let mut s = Scope::new();
    s.set_array_info(vec![2]);
    assert_eq!(init.create(&s), Ok(vec![7, 0]));
    s.set_array_info(vec![0]);
    assert_eq!(init.create(&s), Err(Error::BadDimension));
}

#[test]
fn constant_local_array() {
    // int main(){ const int c[2][2] = {{1}, {2, 3}}; return c[0][0] + c[1][1]; }
    let row = |v: Vec<i32>| {
        ConstInitVal::List(Box::new(
            v.into_iter().map(|n| ConstInitVal::Exp(ConstExp { exp: num(n) })).collect(),
        ))
    };
    let unit = main_of(vec![
        BlockItem::Decl(Decl::Const(ConstDecl {
            defs: vec![ConstDef {
                id: "c".to_string(),
                dims: vec![ConstExp { exp: num(2) }, ConstExp { exp: num(2) }],
                init: ConstInitVal::List(Box::new(vec![row(vec![1]), row(vec![2, 3])])),
            }],
        })),
        ret(add(at("c", vec![num(0), num(0)]), AddOp::Add, at("c", vec![num(1), num(1)]))),
    ]);
    let (program, _) = lowered(&unit);
    let kinds = kinds_of_main(&program);
    let stores = kinds.iter().filter(|k| matches!(k, ValueKind::Store(_, _))).count();
    assert_eq!(stores, 4);
}

// ---- array initialization, step by step ----

struct State {
    program: Prog,
    scope: Scope,
    info: Info,
}

fn global_state() -> State {
    State { program: Prog::new(), scope: Scope::new(), info: Info::new() }
}

/// A state inside a function `@f` with an entry block.
fn local_state() -> State {
    let mut s = global_state();
    let f = s.program.new_func_def("@f".to_string(), vec![], Ty::Int32);
    let bb = s.program.new_bb(f, "%entry".to_string());
    s.program.push_bb(f, bb);
    s.scope.set_cur_func(Some(f));
    s.scope.set_cur_bb(Some(bb));
    s
}

#[test]
fn global_initializer_is_nested_as_the_dimensions() {
    let mut s = global_state();
    let v = global_const_array_init(&mut s.program, &s.scope, &mut s.info, vec![1, 2, 3, 4, 5, 6], vec![2, 3])
        .unwrap();
    assert_eq!(s.program.values[v.id].ty, array(array(Ty::Int32, 3), 2));
    let rows = match &s.program.values[v.id].kind {
        ValueKind::Aggregate(rows) => rows.clone(),
        other => panic!("not an aggregate: {:?}", other),
    };
    assert_eq!(rows.len(), 2);
    let second = match &s.program.values[rows[1].id].kind {
        ValueKind::Aggregate(elems) => elems.clone(),
        other => panic!("not an aggregate: {:?}", other),
    };
    let numbers: Vec<&ValueKind> = second.iter().map(|e| &s.program.values[e.id].kind).collect();
    assert_eq!(numbers, vec![&ValueKind::Integer(4), &ValueKind::Integer(5), &ValueKind::Integer(6)]);
    assert_eq!(s.info.counter(), s.program.values.len());
}

#[test]
fn global_initializer_from_values() {
    let mut s = global_state();
    let a = s.program.integer(None, 1);
    s.info.new_info(a);
    let b = s.program.integer(None, 2);
    s.info.new_info(b);
    let v = global_array_init(&mut s.program, &s.scope, &mut s.info, vec![a, b], vec![2]).unwrap();
    assert_eq!(s.program.values[v.id].kind, ValueKind::Aggregate(vec![a, b]));
    assert_eq!(
        global_array_init(&mut s.program, &s.scope, &mut s.info, vec![a, b], vec![3]),
        Err(Error::BadDimension)
    );
    assert_eq!(
        global_array_init(&mut s.program, &s.scope, &mut s.info, vec![], vec![0]),
        Err(Error::BadDimension)
    );
    assert_eq!(
        global_array_init(&mut s.program, &s.scope, &mut s.info, vec![a, Val { id: 99 }], vec![2]),
        Err(Error::TypeMismatch)
    );
    assert_eq!(
        global_const_array_init(&mut s.program, &s.scope, &mut s.info, vec![1], vec![2]),
        Err(Error::BadDimension)
    );
    let mut l = local_state();
    assert_eq!(
        global_const_array_init(&mut l.program, &l.scope, &mut l.info, vec![1], vec![1]),
        Err(Error::TypeMismatch)
    );
}

#[test]
fn local_initializer_is_a_store_for_each_element() {
    let mut s = local_state();
    let f = s.scope.cur_func();
    let dest = s.program.local_alloc(f, array(array(Ty::Int32, 2), 2));
    s.program.push_inst(s.scope.cur_bb(), dest);
    s.info.new_info(dest);
    local_const_array_init(&mut s.program, &mut s.scope, &mut s.info, vec![5, 6, 7, 8], vec![2, 2], dest)
        .unwrap();
    let insts = &s.program.bbs[0].insts;
    let kinds: Vec<&ValueKind> = insts.iter().map(|v| &s.program.values[v.id].kind).collect();
    let stored: Vec<i32> = kinds
        .iter()
        .filter_map(|k| match k {
            ValueKind::Store(v, _) => match s.program.values[v.id].kind {
                ValueKind::Integer(n) => Some(n),
                _ => None,
            },
            _ => None,
        })
        .collect();
    assert_eq!(stored, vec![5, 6, 7, 8]);
    let steps = kinds.iter().filter(|k| matches!(k, ValueKind::GetElemPtr(_, _))).count();
    assert_eq!(steps, 2 + 4);
    assert_eq!(
        local_const_array_init(&mut s.program, &mut s.scope, &mut s.info, vec![5], vec![2], dest),
        Err(Error::BadDimension)
    );
    assert_eq!(
        local_array_init(&mut s.program, &mut s.scope, &mut s.info, vec![dest], vec![1, 1, 0], dest),
        Err(Error::BadDimension)
    );
    // the place is no array of two dimensions
    let word = s.program.local_alloc(f, Ty::Int32);
    s.program.push_inst(s.scope.cur_bb(), word);
    s.info.new_info(word);
    assert_eq!(
        local_const_array_init(&mut s.program, &mut s.scope, &mut s.info, vec![1, 2], vec![2], word),
        Err(Error::TypeMismatch)
    );
}

// ---- what the front end refuses, beyond whole programs ----

#[test]
fn statement_outside_function_is_refused() {
    let mut s = global_state();
    let branch = If { cond: num(1), then: Stmt::Exp(None), els: None };
    assert_eq!(
        branch.create(&mut s.program, &mut s.scope, &mut s.info),
        Err(Error::OutsideFunction)
    );
    let again = While { cond: num(1), body: Stmt::Exp(None) };
    assert_eq!(again.create(&mut s.program, &mut s.scope, &mut s.info), Err(Error::OutsideFunction));
    let back = Return { exp: None };
    assert_eq!(back.create(&mut s.program, &mut s.scope, &mut s.info), Err(Error::OutsideFunction));
    assert_eq!(s.program.values.len(), 0);
}

#[test]
fn function_inside_function_is_refused() {
    let mut s = local_state();
    let inner = FuncDef { ty: FuncType::Void, id: "g".to_string(), params: vec![], body: Block { items: vec![] } };
    assert_eq!(inner.create(&mut s.program, &mut s.scope, &mut s.info), Err(Error::NestedFunction));
}

#[test]
fn labels_run_out() {
    let mut s = Scope::new();
    s.label.if_counter = usize::MAX - 1;
    s.label.while_counter = usize::MAX - 1;
    let last = next_if_label(&mut s).unwrap();
    assert_eq!(last.0, format!("%Then_{}", usize::MAX - 1));
    assert_eq!(next_if_label(&mut s), Err(Error::TooManyLabels));
    assert!(next_while_label(&mut s).is_ok());
    assert_eq!(next_while_label(&mut s), Err(Error::TooManyLabels));
    assert_eq!(s.label.if_counter, usize::MAX);
}

#[test]
fn bad_dimensions_and_initializers_are_refused() {
    let local_with = |dims: Vec<Exp>, init: Option<InitVal>| {
        main_of(vec![BlockItem::Decl(Decl::Var(VarDecl {
            defs: vec![VarDef {
                id: "a".to_string(),
                dims: dims.into_iter().map(|exp| ConstExp { exp }).collect(),
                init,
            }],
        }))])
    };
    let error = |unit: &CompUnit| generate_mem(unit).err();
    assert_eq!(error(&local_with(vec![num(-1)], None)), Some(Error::BadDimension));
    assert_eq!(error(&local_with(vec![call("getint", vec![])], None)), Some(Error::NotConstant));
    assert_eq!(error(&local_with(vec![num(2)], Some(item(1)))), Some(Error::BadInitializer));
    assert_eq!(
        error(&local_with(vec![num(2)], Some(list(vec![item(1), item(2), item(3)])))),
        Some(Error::BadInitializer)
    );
    assert_eq!(error(&local_with(vec![num(2)], Some(list(vec![item(1), item(2)])))), None);
}

// ---- what the writers refuse ----

/// `int main(){ int c = 0; return 1; int b = 2; if (c) ; else ; return b; }`:
/// the end block of the `if` is written, and reads a variable whose
/// allocation, behind the return, is not.
fn use_of_unwritten_value() -> Prog {
    let unit = main_of(vec![
        local("c", Some(num(0))),
        ret(num(1)),
        local("b", Some(num(2))),
        BlockItem::Stmt(Stmt::If(Box::new(If {
            cond: var("c"),
            then: Stmt::Exp(None),
            els: Some(Stmt::Exp(None)),
        }))),
        ret(var("b")),
    ]);
    lowered(&unit).0
}

/// A function whose block holds its own parameter as an instruction.
fn parameter_as_instruction() -> Prog {
    let mut program = Prog::new();
    let f = program.new_func_def("@f".to_string(), vec![Ty::Int32], Ty::Unit);
    let bb = program.new_bb(f, "%entry".to_string());
    program.push_bb(f, bb);
    let p = program.funcs[f.id].params[0];
    program.push_inst(bb, p);
    program
}

/// A global allocation whose initializer is another global allocation.
fn allocation_as_initializer() -> Prog {
    let mut program = Prog::new();
    let n = program.integer(None, 1);
    let a = program.global_alloc(n);
    program.global_alloc(a);
    program
}

#[test]
fn textual_form_refuses() {
    let info = Info::new();
    assert_eq!(generate_ir(&use_of_unwritten_value(), &info), Err(EmitError::Unnamed));
    assert_eq!(generate_ir(&parameter_as_instruction(), &info), Err(EmitError::Unsupported));
    assert_eq!(generate_ir(&allocation_as_initializer(), &info), Err(EmitError::Unsupported));
    let mut scope = IrScope::new();
    let mut w = IrWriter::new();
    let label = scope.label_mut().local_var();
    scope.new_value(Val { id: 0 }, sysyc::ir::scope::Entry::Label(label));
    scope.register = usize::MAX;
    assert_eq!(
        translate_load(Val { id: 1 }, Val { id: 0 }, &mut scope, &mut w),
        Err(EmitError::TooManyNames)
    );
    assert_eq!(w.text, "");
    scope.register = 4;
    assert_eq!(translate_load(Val { id: 1 }, Val { id: 0 }, &mut scope, &mut w), Ok(()));
    assert_eq!(w.text, "\n// load\n  %4 = load @var0\n");
    assert_eq!(
        translate_load(Val { id: 2 }, Val { id: 7 }, &mut scope, &mut w),
        Err(EmitError::Unnamed)
    );
}

#[test]
fn assembly_refuses() {
    let info = Info::new();
    assert_eq!(generate_asm(&use_of_unwritten_value(), &info), Err(AsmError::Unplaced));
    assert_eq!(generate_asm(&parameter_as_instruction(), &info), Err(AsmError::Unsupported));
    assert_eq!(generate_asm(&allocation_as_initializer(), &info), Err(AsmError::Unsupported));
    // an array of 2^29 words is more than a frame can hold
    let mut program = Prog::new();
    let f = program.new_func_def("@f".to_string(), vec![], Ty::Unit);
    let bb = program.new_bb(f, "%entry".to_string());
    program.push_bb(f, bb);
    let big = program.local_alloc(f, array(Ty::Int32, 0x2000_0000));
    program.push_inst(bb, big);
    assert_eq!(generate_asm(&program, &info), Err(AsmError::FrameTooLarge));
    assert_eq!(words(&array(Ty::Int32, 0x2000_0000)), None);
    assert_eq!(words(&array(array(Ty::Int32, 4), 3)), Some(12));
    assert_eq!(words(&pointer(array(Ty::Int32, 4))), Some(1));
    assert_eq!(words(&Ty::Unit), Some(0));
    // the labels for global data run out
    let program = allocation_as_initializer();
    let mut scope = AsmScope::new();
    let mut w = AsmWriter::new();
    scope.label.var = usize::MAX;
    assert_eq!(
        write_global(&program, &info, Val { id: 1 }, Val { id: 0 }, &mut scope, &mut w),
        Err(AsmError::TooManyNames)
    );
    scope.label.var = 3;
    assert_eq!(
        write_global(&program, &info, Val { id: 1 }, Val { id: 0 }, &mut scope, &mut w),
        Ok(())
    );
    assert_eq!(w.text, "  .globl var_3\nvar_3:\n  .word 1\n");
    assert_eq!(strip(&"@main".to_string()), "main");
    assert_eq!(strip(&"".to_string()), "");
}

// ---- the builder ----

#[test]
fn builder_gives_each_value_its_type() {
    let mut p = Prog::new();
    let f = p.new_func_def("@f".to_string(), vec![Ty::Int32, pointer(Ty::Int32)], Ty::Int32);
    let callee = p.new_func_decl("@g".to_string(), vec![Ty::Int32], Ty::Unit);
    assert_eq!((f.id, callee.id), (0, 1));
    assert_eq!(p.funcs[f.id].params.len(), 2);
    assert_eq!(p.funcs[callee.id].params.len(), 0);
    let a = p.funcs[f.id].params[0];
    assert_eq!(p.values[a.id].kind, ValueKind::FuncArgRef(0));
    assert_eq!(p.value_ty(p.funcs[f.id].params[1]), &pointer(Ty::Int32));
    let bb = p.new_bb(f, "%entry".to_string());
    let other = p.new_bb(f, "%other".to_string());
    p.push_bb(f, bb);
    assert_eq!(p.funcs[f.id].bbs, vec![bb]);
    let m = p.local_alloc(f, array(array(Ty::Int32, 3), 2));
    assert_eq!(p.value_ty(m), &pointer(array(array(Ty::Int32, 3), 2)));
    let i = p.integer(Some(f), 1);
    let row = p.get_elem_ptr(f, m, i);
    assert_eq!(p.value_ty(row), &pointer(array(Ty::Int32, 3)));
    let cell = p.get_elem_ptr(f, row, i);
    assert_eq!(p.value_ty(cell), &pointer(Ty::Int32));
    let next = p.get_ptr(f, cell, i);
    assert_eq!(p.value_ty(next), &pointer(Ty::Int32));
    let x = p.load(f, cell);
    assert_eq!(p.value_ty(x), &Ty::Int32);
    let s = p.store(f, x, next);
    assert_eq!(p.value_ty(s), &Ty::Unit);
    let sum = p.binary(f, BinOp::Add, x, a);
    assert_eq!(p.value_kind(sum), &ValueKind::Binary(BinOp::Add, x, a));
    let c = p.call(f, callee, vec![sum]);
    assert_eq!(p.value_ty(c), &Ty::Unit);
    let br = p.branch(f, sum, bb, other);
    let j = p.jump(f, other);
    let r = p.ret(f, Some(sum));
    for v in [m, i, row, cell, next, x, s, sum, c, br, j, r] {
        p.push_inst(bb, v);
        assert!(!p.is_global(v));
        assert!(p.is_operand(Some(f), v));
        assert!(!p.is_operand(None, v));
        assert!(!p.is_operand(Some(callee), v));
    }
    assert_eq!(p.bbs[bb.id].insts.len(), 12);
    assert!(p.value_kind(br).check_terminator());
    assert!(p.value_kind(j).check_terminator());
    assert!(p.value_kind(r).check_terminator());
    assert!(!p.value_kind(c).check_terminator());
    let g1 = p.integer(None, 5);
    let g2 = p.integer(None, 6);
    let agg = p.aggregate(vec![g1, g2]);
    assert_eq!(p.value_ty(agg), &array(Ty::Int32, 2));
    assert!(p.value_kind(agg).check_const());
    let ga = p.global_alloc(agg);
    assert_eq!(p.value_ty(ga), &pointer(array(Ty::Int32, 2)));
    assert_eq!(p.inst_layout, vec![ga]);
    assert!(p.is_global(ga));
    assert!(p.is_operand(Some(f), ga));
    assert!(!p.is_operand(None, Val { id: 1000 }));
}

// ---- constant initializers, laid out ----

fn citem(n: i32) -> ConstInitVal {
    ConstInitVal::Exp(ConstExp { exp: num(n) })
}

fn clist(items: Vec<ConstInitVal>) -> ConstInitVal {
    ConstInitVal::List(Box::new(items))
}

fn laid_out(init: &ConstInitVal, dims: Vec<usize>) -> Result<Vec<i32>, Error> {
    let mut s = Scope::new();
    s.set_array_info(dims);
    init.create(&s)
}

#[test]
fn nested_constant_initializer_fills_rows() {
    let init = clist(vec![clist(vec![citem(1), citem(2)]), clist(vec![citem(3), citem(4)])]);
    assert_eq!(laid_out(&init, vec![2, 2]), Ok(vec![1, 2, 3, 4]));
}

#[test]
fn flat_constant_initializer_is_padded_with_zeros() {
    let init = clist(vec![citem(1), citem(2), citem(3), citem(4)]);
    assert_eq!(laid_out(&init, vec![2, 3]), Ok(vec![1, 2, 3, 4, 0, 0]));
}

#[test]
fn nested_list_takes_one_aligned_row() {
    let init = clist(vec![citem(1), citem(2), citem(3), citem(4), clist(vec![citem(5)]), citem(6)]);
    let got = laid_out(&init, vec![2, 3, 4]).unwrap();
    let mut want = vec![0; 24];
    want[0] = 1;
    want[1] = 2;
    want[2] = 3;
    want[3] = 4;
    want[4] = 5;
    want[8] = 6;
    assert_eq!(got, want);
}

#[test]
fn constant_initializer_errors_are_told_apart() {
    let open = clist(vec![ConstInitVal::Exp(ConstExp { exp: var("nobody") })]);
    assert_eq!(laid_out(&open, vec![2]), Err(Error::NotConstant));
    let fine = clist(vec![citem(1)]);
    assert_eq!(laid_out(&fine, vec![0]), Err(Error::BadDimension));
    let long = clist(vec![citem(1), citem(2), citem(3)]);
    assert_eq!(laid_out(&long, vec![2]), Err(Error::BadInitializer));
    assert_eq!(laid_out(&citem(1), vec![2]), Err(Error::BadInitializer));
}
