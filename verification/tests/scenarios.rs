//! Whole programs, lowered and then run by a small interpreter of the
//! intermediate representation.

use std::collections::HashMap;
use sysyc::ast::{
    AddExp, AddOp, Assign, Block, BlockItem, Break, Call, CompItem, CompUnit, ConstDecl, ConstDef,
    ConstExp, ConstInitVal, Continue, Decl, EqExp, EqOp, Exp, FuncDef, FuncParam, FuncType, If,
    InitVal, LAndExp, LOrExp, LVal, MulExp, MulOp, PrimaryExp, RelExp, RelOp, Return, Stmt,
    UnaryExp, UnaryOp, VarDecl, VarDef, While,
};
use sysyc::mem::emit::Error;
use sysyc::mem::generate_mem;
use sysyc::program::entities::{Bb, BinOp, Func, Prog, Val, ValueKind};
use sysyc::program::types::Ty;

// ---- building syntax trees ----

fn primary(p: PrimaryExp) -> Exp {
    Exp {
        lor: LOrExp::LAnd(LAndExp::Eq(EqExp::Rel(RelExp::Add(AddExp::Mul(MulExp::Unary(
            UnaryExp::Primary(p),
        )))))),
    }
}

fn num(n: i32) -> Exp {
    primary(PrimaryExp::Num(n))
}

fn var(id: &str) -> Exp {
    primary(PrimaryExp::LVal(LVal { id: id.to_string(), dims: vec![] }))
}

fn at(id: &str, dims: Vec<Exp>) -> Exp {
    primary(PrimaryExp::LVal(LVal { id: id.to_string(), dims }))
}

fn unary_of(e: Exp) -> UnaryExp {
    UnaryExp::Primary(PrimaryExp::Exp(Box::new(e)))
}

fn mul_of(e: Exp) -> MulExp {
    MulExp::Unary(unary_of(e))
}

fn add_of(e: Exp) -> AddExp {
    AddExp::Mul(mul_of(e))
}

fn rel_of(e: Exp) -> RelExp {
    RelExp::Add(add_of(e))
}

fn eq_of(e: Exp) -> EqExp {
    EqExp::Rel(rel_of(e))
}

fn land_of(e: Exp) -> LAndExp {
    LAndExp::Eq(eq_of(e))
}

fn lor_of(e: Exp) -> LOrExp {
    LOrExp::LAnd(land_of(e))
}

fn from_unary(u: UnaryExp) -> Exp {
    Exp { lor: LOrExp::LAnd(LAndExp::Eq(EqExp::Rel(RelExp::Add(AddExp::Mul(MulExp::Unary(u)))))) }
}

fn call(id: &str, args: Vec<Exp>) -> Exp {
    from_unary(UnaryExp::Call(Box::new(Call { id: id.to_string(), args })))
}

fn unary(op: UnaryOp, e: Exp) -> Exp {
    from_unary(UnaryExp::Unary(op, Box::new(unary_of(e))))
}

fn mul(a: Exp, op: MulOp, b: Exp) -> Exp {
    Exp {
        lor: LOrExp::LAnd(LAndExp::Eq(EqExp::Rel(RelExp::Add(AddExp::Mul(MulExp::Mul(
            Box::new(mul_of(a)),
            op,
            unary_of(b),
        )))))),
    }
}

fn add(a: Exp, op: AddOp, b: Exp) -> Exp {
    Exp {
        lor: LOrExp::LAnd(LAndExp::Eq(EqExp::Rel(RelExp::Add(AddExp::Add(
            Box::new(add_of(a)),
            op,
            mul_of(b),
        ))))),
    }
}

fn rel(a: Exp, op: RelOp, b: Exp) -> Exp {
    Exp {
        lor: LOrExp::LAnd(LAndExp::Eq(EqExp::Rel(RelExp::Rel(
            Box::new(rel_of(a)),
            op,
            add_of(b),
        )))),
    }
}

fn eq(a: Exp, op: EqOp, b: Exp) -> Exp {
    Exp { lor: LOrExp::LAnd(LAndExp::Eq(EqExp::Eq(Box::new(eq_of(a)), op, rel_of(b)))) }
}

fn land(a: Exp, b: Exp) -> Exp {
    Exp { lor: LOrExp::LAnd(LAndExp::LAnd(Box::new(land_of(a)), eq_of(b))) }
}

fn lor(a: Exp, b: Exp) -> Exp {
    Exp { lor: LOrExp::LOr(Box::new(lor_of(a)), land_of(b)) }
}

fn ret(e: Exp) -> BlockItem {
    BlockItem::Stmt(Stmt::Return(Return { exp: Some(e) }))
}

fn assign(id: &str, dims: Vec<Exp>, e: Exp) -> Stmt {
    Stmt::Assign(Assign { lval: LVal { id: id.to_string(), dims }, exp: e })
}

fn block(items: Vec<BlockItem>) -> Stmt {
    Stmt::Block(Box::new(Block { items }))
}

fn local(id: &str, init: Option<Exp>) -> BlockItem {
    BlockItem::Decl(Decl::Var(VarDecl {
        defs: vec![VarDef { id: id.to_string(), dims: vec![], init: init.map(InitVal::Exp) }],
    }))
}

fn local_array(id: &str, dims: Vec<i32>, init: Option<InitVal>) -> BlockItem {
    BlockItem::Decl(Decl::Var(VarDecl {
        defs: vec![VarDef {
            id: id.to_string(),
            dims: dims.into_iter().map(|d| ConstExp { exp: num(d) }).collect(),
            init,
        }],
    }))
}

fn list(items: Vec<InitVal>) -> InitVal {
    InitVal::List(Box::new(items))
}

fn item(n: i32) -> InitVal {
    InitVal::Exp(num(n))
}

fn func(ty: FuncType, id: &str, params: Vec<FuncParam>, items: Vec<BlockItem>) -> CompItem {
    CompItem::Func(FuncDef { ty, id: id.to_string(), params, body: Block { items } })
}

fn int_param(id: &str) -> FuncParam {
    FuncParam { id: id.to_string(), dims: None }
}

fn main_of(items: Vec<BlockItem>) -> CompUnit {
    CompUnit { items: vec![func(FuncType::Int, "main", vec![], items)] }
}

// ---- running a program ----

#[derive(Clone, Copy, Debug, PartialEq)]
enum Cell {
    Int(i32),
    Ptr(usize),
    Unit,
}

struct Machine<'a> {
    program: &'a Prog,
    cells: Vec<Cell>,
    globals: HashMap<usize, Cell>,
    output: Vec<i32>,
    calls: Vec<String>,
    steps: usize,
}

fn cells_of(ty: &Ty) -> usize {
    match ty {
        Ty::Array(base, len) => len * cells_of(base),
        Ty::Unit => 0,
        _ => 1,
    }
}

impl<'a> Machine<'a> {
    fn new(program: &'a Prog) -> Self {
        let mut m = Machine {
            program,
            cells: vec![],
            globals: HashMap::new(),
            output: vec![],
            calls: vec![],
            steps: 0,
        };
        for g in &program.inst_layout {
            if let ValueKind::GlobalAlloc(init) = &program.values[g.id].kind {
                let base = m.cells.len();
                m.write_init(*init);
                m.globals.insert(g.id, Cell::Ptr(base));
            }
        }
        m
    }

    fn write_init(&mut self, v: Val) {
        match &self.program.values[v.id].kind {
            ValueKind::Integer(n) => self.cells.push(Cell::Int(*n)),
            ValueKind::ZeroInit => {
                for _ in 0..cells_of(&self.program.values[v.id].ty) {
                    self.cells.push(Cell::Int(0));
                }
            }
            ValueKind::Aggregate(elems) => {
                for e in elems {
                    self.write_init(*e);
                }
            }
            other => panic!("not an initializer: {:?}", other),
        }
    }

    fn find(&self, name: &str) -> Func {
        let id = self.program.funcs.iter().position(|f| f.name == name).expect("no such function");
        Func { id }
    }

    fn get(&self, frame: &HashMap<usize, Cell>, v: Val) -> Cell {
        match &self.program.values[v.id].kind {
            ValueKind::Integer(n) => Cell::Int(*n),
            _ => match frame.get(&v.id) {
                Some(x) => *x,
                None => *self.globals.get(&v.id).expect("value not computed"),
            },
        }
    }

    fn number(&self, frame: &HashMap<usize, Cell>, v: Val) -> i32 {
        match self.get(frame, v) {
            Cell::Int(n) => n,
            other => panic!("not an integer: {:?}", other),
        }
    }

    fn ptr(&self, frame: &HashMap<usize, Cell>, v: Val) -> usize {
        match self.get(frame, v) {
            Cell::Ptr(p) => p,
            other => panic!("not a pointer: {:?}", other),
        }
    }

    fn run(&mut self, f: Func, args: Vec<Cell>) -> Cell {
        let data = &self.program.funcs[f.id];
        self.calls.push(data.name.clone());
        if data.bbs.is_empty() {
            return match data.name.as_str() {
                "@putint" | "@putch" => {
                    if let Cell::Int(n) = args[0] {
                        self.output.push(n);
                    }
                    Cell::Unit
                }
                "@getint" | "@getch" => Cell::Int(0),
                _ => Cell::Unit,
            };
        }
        let mut frame: HashMap<usize, Cell> = HashMap::new();
        for (p, a) in data.params.iter().zip(args) {
            frame.insert(p.id, a);
        }
        let mut bb: Bb = data.bbs[0];
        loop {
            let mut next: Option<Bb> = None;
            for v in &self.program.bbs[bb.id].insts {
                self.steps += 1;
                assert!(self.steps < 1_000_000, "the program runs too long");
                let ty = &self.program.values[v.id].ty;
                match &self.program.values[v.id].kind {
                    ValueKind::Integer(_) => {}
                    ValueKind::Alloc => {
                        let base = self.cells.len();
                        let inner = match ty {
                            Ty::Pointer(inner) => inner,
                            _ => panic!("alloc of a type that is no pointer"),
                        };
                        for _ in 0..cells_of(inner) {
                            self.cells.push(Cell::Int(0));
                        }
                        frame.insert(v.id, Cell::Ptr(base));
                    }
                    ValueKind::Load(src) => {
                        let p = self.ptr(&frame, *src);
                        frame.insert(v.id, self.cells[p]);
                    }
                    ValueKind::Store(value, dest) => {
                        let p = self.ptr(&frame, *dest);
                        self.cells[p] = self.get(&frame, *value);
                    }
                    ValueKind::GetElemPtr(src, index) => {
                        let p = self.ptr(&frame, *src);
                        let i = self.number(&frame, *index) as usize;
                        let step = match ty {
                            Ty::Pointer(elem) => cells_of(elem),
                            _ => panic!("getelemptr of a type that is no pointer"),
                        };
                        frame.insert(v.id, Cell::Ptr(p + i * step));
                    }
                    ValueKind::GetPtr(src, index) => {
                        let p = self.ptr(&frame, *src);
                        let i = self.number(&frame, *index) as usize;
                        let step = match ty {
                            Ty::Pointer(to) => cells_of(to),
                            _ => panic!("getptr of a type that is no pointer"),
                        };
                        frame.insert(v.id, Cell::Ptr(p + i * step));
                    }
                    ValueKind::Binary(op, lhs, rhs) => {
                        let l = self.number(&frame, *lhs);
                        let r = self.number(&frame, *rhs);
                        let n = match op {
                            BinOp::Add => l.wrapping_add(r),
                            BinOp::Sub => l.wrapping_sub(r),
                            BinOp::Mul => l.wrapping_mul(r),
                            BinOp::Div => l.wrapping_div(r),
                            BinOp::Mod => l.wrapping_rem(r),
                            BinOp::And => l & r,
                            BinOp::Or => l | r,
                            BinOp::Eq => (l == r) as i32,
                            BinOp::NotEq => (l != r) as i32,
                            BinOp::Lt => (l < r) as i32,
                            BinOp::Le => (l <= r) as i32,
                            BinOp::Gt => (l > r) as i32,
                            BinOp::Ge => (l >= r) as i32,
                        };
                        frame.insert(v.id, Cell::Int(n));
                    }
                    ValueKind::Call(callee, args) => {
                        let args = args.iter().map(|a| self.get(&frame, *a)).collect();
                        let r = self.run(*callee, args);
                        frame.insert(v.id, r);
                    }
                    ValueKind::Branch(cond, on_true, on_false) => {
                        next = Some(if self.number(&frame, *cond) != 0 { *on_true } else { *on_false });
                        break;
                    }
                    ValueKind::Jump(to) => {
                        next = Some(*to);
                        break;
                    }
                    ValueKind::Return(value) => {
                        return match value {
                            Some(x) => self.get(&frame, *x),
                            None => Cell::Unit,
                        };
                    }
                    other => panic!("not an instruction: {:?}", other),
                }
            }
            match next {
                Some(b) => bb = b,
                None => return Cell::Unit,
            }
        }
    }
}

fn exit_code(unit: &CompUnit) -> i32 {
    let (program, _) = generate_mem(unit).expect("the program lowers");
    let mut m = Machine::new(&program);
    let main = m.find("@main");
    match m.run(main, vec![]) {
        Cell::Int(n) => n,
        other => panic!("main returned {:?}", other),
    }
}

// ---- the scenarios ----

#[test]
fn main_returns_zero() {
    assert_eq!(exit_code(&main_of(vec![ret(num(0))])), 0);
}

#[test]
fn locals_and_arithmetic() {
    // int main(){int a=2,b=3;return a*b+1;}
    let unit = main_of(vec![
        BlockItem::Decl(Decl::Var(VarDecl {
            defs: vec![
                VarDef { id: "a".to_string(), dims: vec![], init: Some(InitVal::Exp(num(2))) },
                VarDef { id: "b".to_string(), dims: vec![], init: Some(InitVal::Exp(num(3))) },
            ],
        })),
        ret(add(mul(var("a"), MulOp::Mul, var("b")), AddOp::Add, num(1))),
    ]);
    assert_eq!(exit_code(&unit), 7);
}

#[test]
fn two_dimensional_array() {
    // int main(){int a[2][2]={{1,2},{3,4}};return a[1][0]+a[0][1];}
    let unit = main_of(vec![
        local_array(
            "a",
            vec![2, 2],
            Some(list(vec![list(vec![item(1), item(2)]), list(vec![item(3), item(4)])])),
        ),
        ret(add(at("a", vec![num(1), num(0)]), AddOp::Add, at("a", vec![num(0), num(1)]))),
    ]);
    assert_eq!(exit_code(&unit), 5);
}

#[test]
fn recursive_fibonacci() {
    // int f(int n){if(n<=1)return n;return f(n-1)+f(n-2);} int main(){return f(10);}
    let f = func(
        FuncType::Int,
        "f",
        vec![int_param("n")],
        vec![
            BlockItem::Stmt(Stmt::If(Box::new(If {
                cond: rel(var("n"), RelOp::Le, num(1)),
                then: Stmt::Return(Return { exp: Some(var("n")) }),
                els: None,
            }))),
            ret(add(
                call("f", vec![add(var("n"), AddOp::Sub, num(1))]),
                AddOp::Add,
                call("f", vec![add(var("n"), AddOp::Sub, num(2))]),
            )),
        ],
    );
    let main = func(FuncType::Int, "main", vec![], vec![ret(call("f", vec![num(10)]))]);
    assert_eq!(exit_code(&CompUnit { items: vec![f, main] }), 55);
}

#[test]
fn while_loop_sum() {
    // int main(){int s=0,i=0;while(i<5){s=s+i;i=i+1;}return s;}
    let unit = main_of(vec![
        local("s", Some(num(0))),
        local("i", Some(num(0))),
        BlockItem::Stmt(Stmt::While(Box::new(While {
            cond: rel(var("i"), RelOp::Lt, num(5)),
            body: block(vec![
                BlockItem::Stmt(assign("s", vec![], add(var("s"), AddOp::Add, var("i")))),
                BlockItem::Stmt(assign("i", vec![], add(var("i"), AddOp::Add, num(1)))),
            ]),
        }))),
        ret(var("s")),
    ]);
    assert_eq!(exit_code(&unit), 10);
}

#[test]
fn global_array_with_constant_size() {
    // const int N=3; int a[N]={1,2,3}; int main(){return a[0]+a[1]+a[2];}
    let unit = CompUnit {
        items: vec![
            CompItem::Decl(Decl::Const(ConstDecl {
                defs: vec![ConstDef {
                    id: "N".to_string(),
                    dims: vec![],
                    init: ConstInitVal::Exp(ConstExp { exp: num(3) }),
                }],
            })),
            CompItem::Decl(Decl::Var(VarDecl {
                defs: vec![VarDef {
                    id: "a".to_string(),
                    dims: vec![ConstExp { exp: var("N") }],
                    init: Some(list(vec![item(1), item(2), item(3)])),
                }],
            })),
            func(
                FuncType::Int,
                "main",
                vec![],
                vec![ret(add(
                    add(at("a", vec![num(0)]), AddOp::Add, at("a", vec![num(1)])),
                    AddOp::Add,
                    at("a", vec![num(2)]),
                ))],
            ),
        ],
    };
    assert_eq!(exit_code(&unit), 6);
}

// ---- short circuit ----

/// `int main(){ int a = <a>; int r = a <op> f(); return r; }` where `f`
/// prints 7 and returns 1; gives what main returned and what was printed.
fn run_circuit(a: i32, all: bool) -> (i32, Vec<i32>) {
    let f = func(
        FuncType::Int,
        "f",
        vec![],
        vec![BlockItem::Stmt(Stmt::Exp(Some(call("putint", vec![num(7)])))), ret(num(1))],
    );
    let test = if all { land(var("a"), call("f", vec![])) } else { lor(var("a"), call("f", vec![])) };
    let main = func(
        FuncType::Int,
        "main",
        vec![],
        vec![local("a", Some(num(a))), local("r", Some(test)), ret(var("r"))],
    );
    let unit = CompUnit { items: vec![f, main] };
    let (program, _) = generate_mem(&unit).expect("the program lowers");
    let mut m = Machine::new(&program);
    let main = m.find("@main");
    let r = match m.run(main, vec![]) {
        Cell::Int(n) => n,
        other => panic!("main returned {:?}", other),
    };
    (r, m.output)
}

#[test]
fn and_skips_right_side_when_left_is_zero() {
    assert_eq!(run_circuit(0, true), (0, vec![]));
}

#[test]
fn and_runs_right_side_when_left_is_nonzero() {
    assert_eq!(run_circuit(5, true), (1, vec![7]));
}

#[test]
fn or_skips_right_side_when_left_is_nonzero() {
    assert_eq!(run_circuit(5, false), (1, vec![]));
}

#[test]
fn or_runs_right_side_when_left_is_zero() {
    assert_eq!(run_circuit(0, false), (1, vec![7]));
}

// ---- more of the language ----

#[test]
fn break_and_continue() {
    // int main(){int s=0,i=0; while(1){ i=i+1; if(i>10) break; if(i%2==0) continue; s=s+i; } return s;}
    let unit = main_of(vec![
        local("s", Some(num(0))),
        local("i", Some(num(0))),
        BlockItem::Stmt(Stmt::While(Box::new(While {
            cond: num(1),
            body: block(vec![
                BlockItem::Stmt(assign("i", vec![], add(var("i"), AddOp::Add, num(1)))),
                BlockItem::Stmt(Stmt::If(Box::new(If {
                    cond: rel(var("i"), RelOp::Gt, num(10)),
                    then: Stmt::Break(Break),
                    els: None,
                }))),
                BlockItem::Stmt(Stmt::If(Box::new(If {
                    cond: eq(mul(var("i"), MulOp::Mod, num(2)), EqOp::Eq, num(0)),
                    then: Stmt::Continue(Continue),
                    els: None,
                }))),
                BlockItem::Stmt(assign("s", vec![], add(var("s"), AddOp::Add, var("i")))),
            ]),
        }))),
        ret(var("s")),
    ]);
    assert_eq!(exit_code(&unit), 25);
}

#[test]
fn if_else_and_unary() {
    // int main(){int a=-3; if(!a) return 1; else return -a;}
    let unit = main_of(vec![
        local("a", Some(unary(UnaryOp::Neg, num(3)))),
        BlockItem::Stmt(Stmt::If(Box::new(If {
            cond: unary(UnaryOp::Not, var("a")),
            then: Stmt::Return(Return { exp: Some(num(1)) }),
            els: Some(Stmt::Return(Return { exp: Some(unary(UnaryOp::Neg, var("a"))) })),
        }))),
    ]);
    assert_eq!(exit_code(&unit), 3);
}

#[test]
fn shadowing_in_nested_block() {
    // int main(){int a=1; {int a=2; a=a+1;} return a;}
    let unit = main_of(vec![
        local("a", Some(num(1))),
        BlockItem::Stmt(block(vec![
            local("a", Some(num(2))),
            BlockItem::Stmt(assign("a", vec![], add(var("a"), AddOp::Add, num(1)))),
        ])),
        ret(var("a")),
    ]);
    assert_eq!(exit_code(&unit), 1);
}

#[test]
fn array_parameter_and_element_store() {
    // int sum(int a[][2], int n){int s=0,i=0; while(i<n){s=s+a[i][0]+a[i][1]; i=i+1;} return s;}
    // int main(){int a[2][2]={1,2,3}; a[1][1]=10; return sum(a, 2);}
    let sum = func(
        FuncType::Int,
        "sum",
        vec![
            FuncParam { id: "a".to_string(), dims: Some(vec![ConstExp { exp: num(2) }]) },
            int_param("n"),
        ],
        vec![
            local("s", Some(num(0))),
            local("i", Some(num(0))),
            BlockItem::Stmt(Stmt::While(Box::new(While {
                cond: rel(var("i"), RelOp::Lt, var("n")),
                body: block(vec![
                    BlockItem::Stmt(assign(
                        "s",
                        vec![],
                        add(
                            add(var("s"), AddOp::Add, at("a", vec![var("i"), num(0)])),
                            AddOp::Add,
                            at("a", vec![var("i"), num(1)]),
                        ),
                    )),
                    BlockItem::Stmt(assign("i", vec![], add(var("i"), AddOp::Add, num(1)))),
                ]),
            }))),
            ret(var("s")),
        ],
    );
    let main = func(
        FuncType::Int,
        "main",
        vec![],
        vec![
            local_array("a", vec![2, 2], Some(list(vec![item(1), item(2), item(3)]))),
            BlockItem::Stmt(assign("a", vec![num(1), num(1)], num(10))),
            ret(call("sum", vec![var("a"), num(2)])),
        ],
    );
    assert_eq!(exit_code(&CompUnit { items: vec![sum, main] }), 16);
}

#[test]
fn pointer_parameter_element_store() {
    // void set(int a[], int i){a[i]=9;} int main(){int a[3]={}; set(a, 2); return a[2]+a[0];}
    let set = func(
        FuncType::Void,
        "set",
        vec![FuncParam { id: "a".to_string(), dims: Some(vec![]) }, int_param("i")],
        vec![BlockItem::Stmt(assign("a", vec![var("i")], num(9)))],
    );
    let main = func(
        FuncType::Int,
        "main",
        vec![],
        vec![
            local_array("a", vec![3], Some(list(vec![]))),
            BlockItem::Stmt(Stmt::Exp(Some(call("set", vec![var("a"), num(2)])))),
            ret(add(at("a", vec![num(2)]), AddOp::Add, at("a", vec![num(0)]))),
        ],
    );
    assert_eq!(exit_code(&CompUnit { items: vec![set, main] }), 9);
}

#[test]
fn global_scalar_is_read_and_written() {
    // int g = 4; int main(){ g = g + 1; return g; }
    let unit = CompUnit {
        items: vec![
            CompItem::Decl(Decl::Var(VarDecl {
                defs: vec![VarDef {
                    id: "g".to_string(),
                    dims: vec![],
                    init: Some(InitVal::Exp(num(4))),
                }],
            })),
            func(
                FuncType::Int,
                "main",
                vec![],
                vec![
                    BlockItem::Stmt(assign("g", vec![], add(var("g"), AddOp::Add, num(1)))),
                    ret(var("g")),
                ],
            ),
        ],
    };
    assert_eq!(exit_code(&unit), 5);
}

// ---- what is refused ----

fn lowering_error(unit: &CompUnit) -> Error {
    match generate_mem(unit) {
        Ok(_) => panic!("the program should not lower"),
        Err(e) => e,
    }
}

#[test]
fn unknown_name_is_refused() {
    assert_eq!(lowering_error(&main_of(vec![ret(var("x"))])), Error::UnknownName);
}

#[test]
fn unknown_function_is_refused() {
    assert_eq!(lowering_error(&main_of(vec![ret(call("g", vec![]))])), Error::UnknownFunction);
}

#[test]
fn assignment_to_constant_is_refused() {
    let unit = main_of(vec![
        BlockItem::Decl(Decl::Const(ConstDecl {
            defs: vec![ConstDef {
                id: "c".to_string(),
                dims: vec![],
                init: ConstInitVal::Exp(ConstExp { exp: num(1) }),
            }],
        })),
        BlockItem::Stmt(assign("c", vec![], num(2))),
    ]);
    assert_eq!(lowering_error(&unit), Error::ConstAssign);
}

#[test]
fn too_many_indices_are_refused() {
    let unit = main_of(vec![local("a", Some(num(1))), ret(at("a", vec![num(0)]))]);
    assert_eq!(lowering_error(&unit), Error::BadLVal);
}

#[test]
fn assignment_to_slice_is_refused() {
    let unit = main_of(vec![
        local_array("a", vec![2, 2], None),
        BlockItem::Stmt(assign("a", vec![num(0)], num(1))),
    ]);
    assert_eq!(lowering_error(&unit), Error::BadLVal);
}

#[test]
fn void_value_as_operand_is_refused() {
    // int main(){ return putint(1) + 1; }
    let unit = main_of(vec![ret(add(call("putint", vec![num(1)]), AddOp::Add, num(1)))]);
    assert_eq!(lowering_error(&unit), Error::TypeMismatch);
}

#[test]
fn global_initializer_must_be_constant() {
    // int g = getint();
    let unit = CompUnit {
        items: vec![CompItem::Decl(Decl::Var(VarDecl {
            defs: vec![VarDef {
                id: "g".to_string(),
                dims: vec![],
                init: Some(InitVal::Exp(call("getint", vec![]))),
            }],
        }))],
    };
    assert_eq!(lowering_error(&unit), Error::NotConstant);
}

#[test]
fn list_for_scalar_is_refused() {
    let unit = main_of(vec![BlockItem::Decl(Decl::Var(VarDecl {
        defs: vec![VarDef { id: "a".to_string(), dims: vec![], init: Some(list(vec![item(1)])) }],
    }))]);
    assert_eq!(lowering_error(&unit), Error::BadInitializer);
}

#[test]
fn zero_dimension_is_refused() {
    let unit = main_of(vec![local_array("a", vec![0], None)]);
    assert_eq!(lowering_error(&unit), Error::BadDimension);
}

#[test]
fn break_outside_loop_is_refused() {
    let unit = main_of(vec![BlockItem::Stmt(Stmt::Break(Break))]);
    assert_eq!(lowering_error(&unit), Error::OutsideLoop);
}

#[test]
fn continue_outside_loop_is_refused() {
    let unit = main_of(vec![BlockItem::Stmt(Stmt::Continue(Continue))]);
    assert_eq!(lowering_error(&unit), Error::OutsideLoop);
}
