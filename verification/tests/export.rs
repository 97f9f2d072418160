//! The export: what the builder of `koopa` holds afterwards is what the
//! program holds.

use sysyc::ast::{
    AddExp, AddOp, Assign, Block, BlockItem, Break, Call, CompItem, CompUnit, ConstDecl, ConstDef,
    ConstExp, ConstInitVal, Continue, Decl, EqExp, EqOp, Exp, FuncDef, FuncParam, FuncType, If,
    InitVal, LAndExp, LOrExp, LVal, MulExp, MulOp, PrimaryExp, RelExp, RelOp, Return, Stmt,
    UnaryExp, UnaryOp, VarDecl, VarDef, While,
};
use sysyc::export::{export, ExportError};
use sysyc::ir::writer::ty_string;
use sysyc::mem::generate_mem;
use sysyc::program::entities::{Prog, ValueData, ValueKind};
use sysyc::program::types::Ty;

// ---- building syntax trees ----

fn primary(p: PrimaryExp) -> Exp {
    Exp {
        lor: LOrExp::LAnd(LAndExp::Eq(EqExp::Rel(RelExp::Add(AddExp::Mul(MulExp::Unary(
            UnaryExp::Primary(p),
        )))))),
    }
}

fn num(n: i32) -> Exp {
    primary(PrimaryExp::Num(n))
}

fn var(id: &str) -> Exp {
    primary(PrimaryExp::LVal(LVal { id: id.to_string(), dims: vec![] }))
}

fn at(id: &str, dims: Vec<Exp>) -> Exp {
    primary(PrimaryExp::LVal(LVal { id: id.to_string(), dims }))
}

fn unary_of(e: Exp) -> UnaryExp {
    UnaryExp::Primary(PrimaryExp::Exp(Box::new(e)))
}

fn mul_of(e: Exp) -> MulExp {
    MulExp::Unary(unary_of(e))
}

fn add_of(e: Exp) -> AddExp {
    AddExp::Mul(mul_of(e))
}

fn rel_of(e: Exp) -> RelExp {
    RelExp::Add(add_of(e))
}

fn eq_of(e: Exp) -> EqExp {
    EqExp::Rel(rel_of(e))
}

fn land_of(e: Exp) -> LAndExp {
    LAndExp::Eq(eq_of(e))
}

fn lor_of(e: Exp) -> LOrExp {
    LOrExp::LAnd(land_of(e))
}

fn from_unary(u: UnaryExp) -> Exp {
    Exp { lor: LOrExp::LAnd(LAndExp::Eq(EqExp::Rel(RelExp::Add(AddExp::Mul(MulExp::Unary(u)))))) }
}

fn call(id: &str, args: Vec<Exp>) -> Exp {
    from_unary(UnaryExp::Call(Box::new(Call { id: id.to_string(), args })))
}

fn unary(op: UnaryOp, e: Exp) -> Exp {
    from_unary(UnaryExp::Unary(op, Box::new(unary_of(e))))
}

fn mul(a: Exp, op: MulOp, b: Exp) -> Exp {
    Exp {
        lor: LOrExp::LAnd(LAndExp::Eq(EqExp::Rel(RelExp::Add(AddExp::Mul(MulExp::Mul(
            Box::new(mul_of(a)),
            op,
            unary_of(b),
        )))))),
    }
}

fn add(a: Exp, op: AddOp, b: Exp) -> Exp {
    Exp {
        lor: LOrExp::LAnd(LAndExp::Eq(EqExp::Rel(RelExp::Add(AddExp::Add(
            Box::new(add_of(a)),
            op,
            mul_of(b),
        ))))),
    }
}

fn rel(a: Exp, op: RelOp, b: Exp) -> Exp {
    Exp {
        lor: LOrExp::LAnd(LAndExp::Eq(EqExp::Rel(RelExp::Rel(
            Box::new(rel_of(a)),
            op,
            add_of(b),
        )))),
    }
}

fn eq(a: Exp, op: EqOp, b: Exp) -> Exp {
    Exp { lor: LOrExp::LAnd(LAndExp::Eq(EqExp::Eq(Box::new(eq_of(a)), op, rel_of(b)))) }
}

fn land(a: Exp, b: Exp) -> Exp {
    Exp { lor: LOrExp::LAnd(LAndExp::LAnd(Box::new(land_of(a)), eq_of(b))) }
}

fn lor(a: Exp, b: Exp) -> Exp {
    Exp { lor: LOrExp::LOr(Box::new(lor_of(a)), land_of(b)) }
}

fn ret(e: Exp) -> BlockItem {
    BlockItem::Stmt(Stmt::Return(Return { exp: Some(e) }))
}

fn assign(id: &str, dims: Vec<Exp>, e: Exp) -> Stmt {
    Stmt::Assign(Assign { lval: LVal { id: id.to_string(), dims }, exp: e })
}

fn block(items: Vec<BlockItem>) -> Stmt {
    Stmt::Block(Box::new(Block { items }))
}

fn local(id: &str, init: Option<Exp>) -> BlockItem {
    BlockItem::Decl(Decl::Var(VarDecl {
        defs: vec![VarDef { id: id.to_string(), dims: vec![], init: init.map(InitVal::Exp) }],
    }))
}

fn local_array(id: &str, dims: Vec<i32>, init: Option<InitVal>) -> BlockItem {
    BlockItem::Decl(Decl::Var(VarDecl {
        defs: vec![VarDef {
            id: id.to_string(),
            dims: dims.into_iter().map(|d| ConstExp { exp: num(d) }).collect(),
            init,
        }],
    }))
}

fn list(items: Vec<InitVal>) -> InitVal {
    InitVal::List(Box::new(items))
}

fn item(n: i32) -> InitVal {
    InitVal::Exp(num(n))
}

fn func(ty: FuncType, id: &str, params: Vec<FuncParam>, items: Vec<BlockItem>) -> CompItem {
    CompItem::Func(FuncDef { ty, id: id.to_string(), params, body: Block { items } })
}

fn int_param(id: &str) -> FuncParam {
    FuncParam { id: id.to_string(), dims: None }
}

fn main_of(items: Vec<BlockItem>) -> CompUnit {
    CompUnit { items: vec![func(FuncType::Int, "main", vec![], items)] }
}


fn sample() -> CompUnit {
    // int g[2][2] = {1, 2, 3}; int z[3];
    // int f(int n, int a[][2]){ if (n <= 1 || a[n][0]) return n; return f(n - 1, a) + g[1][0]; }
    // int main(){ int m[2][2] = {{1}, {2}}; putint(f(3, m)); while (m[0][0] < 5) m[0][0] = m[0][0] * 2; return m[0][0]; }
    let global = |id: &str, dims: Vec<i32>, init: Option<InitVal>| {
        CompItem::Decl(Decl::Var(VarDecl {
            defs: vec![VarDef {
                id: id.to_string(),
                dims: dims.into_iter().map(|d| ConstExp { exp: num(d) }).collect(),
                init,
            }],
        }))
    };
    let f = func(
        FuncType::Int,
        "f",
        vec![
            int_param("n"),
            FuncParam { id: "a".to_string(), dims: Some(vec![ConstExp { exp: num(2) }]) },
        ],
        vec![
            BlockItem::Stmt(Stmt::If(Box::new(If {
                cond: lor(rel(var("n"), RelOp::Le, num(1)), at("a", vec![var("n"), num(0)])),
                then: Stmt::Return(Return { exp: Some(var("n")) }),
                els: None,
            }))),
            ret(add(
                call("f", vec![add(var("n"), AddOp::Sub, num(1)), var("a")]),
                AddOp::Add,
                at("g", vec![num(1), num(0)]),
            )),
        ],
    );
    let main = func(
        FuncType::Int,
        "main",
        vec![],
        vec![
            local_array(
                "m",
                vec![2, 2],
                Some(list(vec![list(vec![item(1)]), list(vec![item(2)])])),
            ),
            BlockItem::Stmt(Stmt::Exp(Some(call("putint", vec![call("f", vec![num(3), var("m")])])))),
            BlockItem::Stmt(Stmt::While(Box::new(While {
                cond: rel(at("m", vec![num(0), num(0)]), RelOp::Lt, num(5)),
                body: assign(
                    "m",
                    vec![num(0), num(0)],
                    mul(at("m", vec![num(0), num(0)]), MulOp::Mul, num(2)),
                ),
            }))),
            ret(at("m", vec![num(0), num(0)])),
        ],
    );
    CompUnit {
        items: vec![
            global("g", vec![2, 2], Some(list(vec![item(1), item(2), item(3)]))),
            global("z", vec![3], None),
            f,
            main,
        ],
    }
}

fn kind_name(kind: &koopa::ir::ValueKind) -> &'static str {
    match kind {
        koopa::ir::ValueKind::Integer(_) => "Integer",
        koopa::ir::ValueKind::ZeroInit(_) => "ZeroInit",
        koopa::ir::ValueKind::Undef(_) => "Undef",
        koopa::ir::ValueKind::Aggregate(_) => "Aggregate",
        koopa::ir::ValueKind::FuncArgRef(_) => "FuncArgRef",
        koopa::ir::ValueKind::BlockArgRef(_) => "BlockArgRef",
        koopa::ir::ValueKind::Alloc(_) => "Alloc",
        koopa::ir::ValueKind::GlobalAlloc(_) => "GlobalAlloc",
        koopa::ir::ValueKind::Load(_) => "Load",
        koopa::ir::ValueKind::Store(_) => "Store",
        koopa::ir::ValueKind::GetPtr(_) => "GetPtr",
        koopa::ir::ValueKind::GetElemPtr(_) => "GetElemPtr",
        koopa::ir::ValueKind::Binary(_) => "Binary",
        koopa::ir::ValueKind::Branch(_) => "Branch",
        koopa::ir::ValueKind::Jump(_) => "Jump",
        koopa::ir::ValueKind::Call(_) => "Call",
        koopa::ir::ValueKind::Return(_) => "Return",
    }
}

fn own_kind_name(kind: &ValueKind) -> &'static str {
    match kind {
        ValueKind::Integer(_) => "Integer",
        ValueKind::ZeroInit => "ZeroInit",
        ValueKind::Aggregate(_) => "Aggregate",
        ValueKind::FuncArgRef(_) => "FuncArgRef",
        ValueKind::Alloc => "Alloc",
        ValueKind::GlobalAlloc(_) => "GlobalAlloc",
        ValueKind::Load(_) => "Load",
        ValueKind::Store(_, _) => "Store",
        ValueKind::GetPtr(_, _) => "GetPtr",
        ValueKind::GetElemPtr(_, _) => "GetElemPtr",
        ValueKind::Binary(_, _, _) => "Binary",
        ValueKind::Branch(_, _, _) => "Branch",
        ValueKind::Jump(_) => "Jump",
        ValueKind::Call(_, _) => "Call",
        ValueKind::Return(_) => "Return",
    }
}

#[test]
fn exported_values_have_their_kinds_and_types() {
    let (program, _) = generate_mem(&sample()).expect("the program lowers");
    let e = export(&program).expect("the program can be exported");
    assert_eq!(e.values.len(), program.values.len());
    assert_eq!(e.funcs.len(), program.funcs.len());
    assert_eq!(e.bbs.len(), program.bbs.len());
    let mut seen = std::collections::HashSet::new();
    for (i, d) in program.values.iter().enumerate() {
        let h = e.values[i];
        assert!(seen.insert(h), "every value has a handle of its own");
        assert_eq!(h.is_global(), d.func.is_none());
        let (kind, ty) = match d.func {
            None => {
                let data = e.program.borrow_value(h);
                (kind_name(data.kind()), data.ty().to_string())
            }
            Some(f) => {
                let data = e.program.func(e.funcs[f.id]).dfg().value(h);
                (kind_name(data.kind()), data.ty().to_string())
            }
        };
        assert_eq!(kind, own_kind_name(&d.kind));
        assert_eq!(ty, ty_string(&d.ty));
    }
}

#[test]
fn exported_operands_are_the_exported_values() {
    let (program, _) = generate_mem(&sample()).expect("the program lowers");
    let e = export(&program).expect("the program can be exported");
    for (i, d) in program.values.iter().enumerate() {
        let uses: Vec<koopa::ir::Value> = match d.func {
            None => e.program.borrow_value(e.values[i]).kind().value_uses().collect(),
            Some(f) => {
                e.program.func(e.funcs[f.id]).dfg().value(e.values[i]).kind().value_uses().collect()
            }
        };
        let want: Vec<koopa::ir::Value> = match &d.kind {
            ValueKind::Aggregate(elems) => elems.iter().map(|v| e.values[v.id]).collect(),
            ValueKind::GlobalAlloc(init) => vec![e.values[init.id]],
            ValueKind::Load(src) => vec![e.values[src.id]],
            ValueKind::Store(v, dest) => vec![e.values[v.id], e.values[dest.id]],
            ValueKind::GetPtr(src, index) => vec![e.values[src.id], e.values[index.id]],
            ValueKind::GetElemPtr(src, index) => vec![e.values[src.id], e.values[index.id]],
            ValueKind::Binary(_, l, r) => vec![e.values[l.id], e.values[r.id]],
            ValueKind::Branch(c, _, _) => vec![e.values[c.id]],
            ValueKind::Call(_, args) => args.iter().map(|v| e.values[v.id]).collect(),
            ValueKind::Return(Some(v)) => vec![e.values[v.id]],
            _ => vec![],
        };
        assert_eq!(uses, want);
        if let (ValueKind::Binary(op, _, _), Some(f)) = (&d.kind, d.func) {
            let data = e.program.func(e.funcs[f.id]).dfg().value(e.values[i]);
            if let koopa::ir::ValueKind::Binary(b) = data.kind() {
                assert_eq!(format!("{:?}", b.op()), format!("{:?}", op));
            }
        }
        if let (ValueKind::Integer(n), None) = (&d.kind, d.func) {
            if let koopa::ir::ValueKind::Integer(k) = e.program.borrow_value(e.values[i]).kind() {
                assert_eq!(k.value(), *n);
            }
        }
    }
}

#[test]
fn exported_layout_is_the_layout() {
    let (program, _) = generate_mem(&sample()).expect("the program lowers");
    let e = export(&program).expect("the program can be exported");
    assert_eq!(e.program.func_layout(), &e.funcs[..]);
    let globals: Vec<koopa::ir::Value> = program.inst_layout.iter().map(|v| e.values[v.id]).collect();
    assert_eq!(e.program.inst_layout(), &globals[..]);
    for (j, fd) in program.funcs.iter().enumerate() {
        let data = e.program.func(e.funcs[j]);
        assert_eq!(data.name(), fd.name);
        let params: Vec<koopa::ir::Value> = fd.params.iter().map(|v| e.values[v.id]).collect();
        assert_eq!(data.params(), &params[..]);
        let blocks: Vec<koopa::ir::BasicBlock> = data.layout().bbs().keys().copied().collect();
        let want: Vec<koopa::ir::BasicBlock> = fd.bbs.iter().map(|b| e.bbs[b.id]).collect();
        assert_eq!(blocks, want);
        for b in &fd.bbs {
            let node = data.layout().bbs().node(&e.bbs[b.id]).expect("the block is placed");
            let insts: Vec<koopa::ir::Value> = node.insts().keys().copied().collect();
            let want: Vec<koopa::ir::Value> =
                program.bbs[b.id].insts.iter().map(|v| e.values[v.id]).collect();
            assert_eq!(insts, want);
            assert_eq!(data.dfg().bb(e.bbs[b.id]).name().as_deref(), Some(program.bbs[b.id].name.as_str()));
        }
    }
}

#[test]
fn exported_function_types() {
    let (program, _) = generate_mem(&sample()).expect("the program lowers");
    let e = export(&program).expect("the program can be exported");
    let name_and_type: Vec<(String, String)> = e
        .program
        .func_layout()
        .iter()
        .map(|f| {
            let d = e.program.func(*f);
            (d.name().to_string(), d.ty().to_string())
        })
        .collect();
    let want = vec![
        ("@getint", "(): i32"),
        ("@getch", "(): i32"),
        ("@getarray", "(*i32): i32"),
        ("@putint", "(i32)"),
        ("@putch", "(i32)"),
        ("@putarray", "(i32, *i32)"),
        ("@starttime", "()"),
        ("@stoptime", "()"),
        ("@f", "(i32, *[i32, 2]): i32"),
        ("@main", "(): i32"),
    ];
    let want: Vec<(String, String)> =
        want.into_iter().map(|(a, b)| (a.to_string(), b.to_string())).collect();
    assert_eq!(name_and_type, want);
}

#[test]
fn export_refuses_what_koopa_would_not_take() {
    let i32_pointer = Ty::Pointer(Box::new(Ty::Int32));
    // a name without a sigil
    let mut p = Prog::new();
    p.new_func_decl("f".to_string(), vec![], Ty::Unit);
    assert_eq!(export(&p).err(), Some(ExportError::BadName));
    let mut p = Prog::new();
    p.new_func_decl("@".to_string(), vec![], Ty::Unit);
    assert_eq!(export(&p).err(), Some(ExportError::BadName));
    let mut p = Prog::new();
    let f = p.new_func_def("%f".to_string(), vec![i32_pointer.clone()], Ty::Unit);
    p.new_bb(f, "entry".to_string());
    assert_eq!(export(&p).err(), Some(ExportError::BadName));
    // an array of no elements, a parameter of type unit
    let mut p = Prog::new();
    let f = p.new_func_def("@f".to_string(), vec![], Ty::Unit);
    p.local_alloc(f, Ty::Array(Box::new(Ty::Int32), 0));
    assert_eq!(export(&p).err(), Some(ExportError::BadType));
    let mut p = Prog::new();
    p.new_func_decl("@f".to_string(), vec![Ty::Unit], Ty::Unit);
    assert_eq!(export(&p).err(), Some(ExportError::BadType));
    let mut p = Prog::new();
    p.new_func_decl("@f".to_string(), vec![], Ty::Pointer(Box::new(Ty::Array(Box::new(Ty::Int32), 0))));
    assert_eq!(export(&p).err(), Some(ExportError::BadType));
    // a zero initializer
    let mut p = Prog::new();
    p.values.push(ValueData { ty: Ty::Int32, kind: ValueKind::ZeroInit, func: None });
    assert_eq!(export(&p).err(), Some(ExportError::Unsupported));
    // nothing at all is fine
    let e = export(&Prog::new()).expect("an empty program can be exported");
    assert_eq!(e.program.func_layout().len(), 0);
}

#[test]
fn what_is_laid_out_twice_is_exported_once() {
    let mut p = Prog::new();
    let f = p.new_func_def("@f".to_string(), vec![], Ty::Unit);
    let entry = p.new_bb(f, "%entry".to_string());
    let next = p.new_bb(f, "%next".to_string());
    let jump = p.jump(f, next);
    let back = p.ret(f, None);
    p.push_bb(f, entry);
    p.push_bb(f, next);
    p.push_bb(f, entry);
    p.push_inst(entry, jump);
    p.push_inst(entry, jump);
    p.push_inst(next, back);
    let e = export(&p).expect("the program can be exported");
    assert_ne!(e.bbs[entry.id], e.bbs[next.id]);
    assert_ne!(e.values[jump.id], e.values[back.id]);
    let data = e.program.func(e.funcs[f.id]);
    let blocks: Vec<koopa::ir::BasicBlock> = data.layout().bbs().keys().copied().collect();
    assert_eq!(blocks, vec![e.bbs[entry.id], e.bbs[next.id]]);
    let first = data.layout().bbs().node(&e.bbs[entry.id]).expect("the block is placed");
    let insts: Vec<koopa::ir::Value> = first.insts().keys().copied().collect();
    assert_eq!(insts, vec![e.values[jump.id]]);
    let second = data.layout().bbs().node(&e.bbs[next.id]).expect("the block is placed");
    let insts: Vec<koopa::ir::Value> = second.insts().keys().copied().collect();
    assert_eq!(insts, vec![e.values[back.id]]);
}
