//! Whole programs, compiled to assembly and then run by a small simulator of
//! the instructions that the compiler writes.

use std::collections::HashMap;
use sysyc::ast::{
    AddExp, AddOp, Assign, Block, BlockItem, Break, Call, CompItem, CompUnit, ConstDecl, ConstDef,
    ConstExp, ConstInitVal, Continue, Decl, EqExp, EqOp, Exp, FuncDef, FuncParam, FuncType, If,
    InitVal, LAndExp, LOrExp, LVal, MulExp, MulOp, PrimaryExp, RelExp, RelOp, Return, Stmt,
    UnaryExp, UnaryOp, VarDecl, VarDef, While,
};
use sysyc::mem::generate_mem;
use sysyc::riscv::generate_asm;

// ---- building syntax trees ----

fn primary(p: PrimaryExp) -> Exp {
    Exp {
        lor: LOrExp::LAnd(LAndExp::Eq(EqExp::Rel(RelExp::Add(AddExp::Mul(MulExp::Unary(
            UnaryExp::Primary(p),
        )))))),
    }
}

fn num(n: i32) -> Exp {
    primary(PrimaryExp::Num(n))
}

fn var(id: &str) -> Exp {
    primary(PrimaryExp::LVal(LVal { id: id.to_string(), dims: vec![] }))
}

fn at(id: &str, dims: Vec<Exp>) -> Exp {
    primary(PrimaryExp::LVal(LVal { id: id.to_string(), dims }))
}

fn unary_of(e: Exp) -> UnaryExp {
    UnaryExp::Primary(PrimaryExp::Exp(Box::new(e)))
}

fn mul_of(e: Exp) -> MulExp {
    MulExp::Unary(unary_of(e))
}

fn add_of(e: Exp) -> AddExp {
    AddExp::Mul(mul_of(e))
}

fn rel_of(e: Exp) -> RelExp {
    RelExp::Add(add_of(e))
}

fn eq_of(e: Exp) -> EqExp {
    EqExp::Rel(rel_of(e))
}

fn land_of(e: Exp) -> LAndExp {
    LAndExp::Eq(eq_of(e))
}

fn lor_of(e: Exp) -> LOrExp {
    LOrExp::LAnd(land_of(e))
}

fn from_unary(u: UnaryExp) -> Exp {
    Exp { lor: LOrExp::LAnd(LAndExp::Eq(EqExp::Rel(RelExp::Add(AddExp::Mul(MulExp::Unary(u)))))) }
}

fn call(id: &str, args: Vec<Exp>) -> Exp {
    from_unary(UnaryExp::Call(Box::new(Call { id: id.to_string(), args })))
}

fn unary(op: UnaryOp, e: Exp) -> Exp {
    from_unary(UnaryExp::Unary(op, Box::new(unary_of(e))))
}

fn mul(a: Exp, op: MulOp, b: Exp) -> Exp {
    Exp {
        lor: LOrExp::LAnd(LAndExp::Eq(EqExp::Rel(RelExp::Add(AddExp::Mul(MulExp::Mul(
            Box::new(mul_of(a)),
            op,
            unary_of(b),
        )))))),
    }
}

fn add(a: Exp, op: AddOp, b: Exp) -> Exp {
    Exp {
        lor: LOrExp::LAnd(LAndExp::Eq(EqExp::Rel(RelExp::Add(AddExp::Add(
            Box::new(add_of(a)),
            op,
            mul_of(b),
        ))))),
    }
}

fn rel(a: Exp, op: RelOp, b: Exp) -> Exp {
    Exp {
        lor: LOrExp::LAnd(LAndExp::Eq(EqExp::Rel(RelExp::Rel(
            Box::new(rel_of(a)),
            op,
            add_of(b),
        )))),
    }
}

fn eq(a: Exp, op: EqOp, b: Exp) -> Exp {
    Exp { lor: LOrExp::LAnd(LAndExp::Eq(EqExp::Eq(Box::new(eq_of(a)), op, rel_of(b)))) }
}

fn land(a: Exp, b: Exp) -> Exp {
    Exp { lor: LOrExp::LAnd(LAndExp::LAnd(Box::new(land_of(a)), eq_of(b))) }
}

fn lor(a: Exp, b: Exp) -> Exp {
    Exp { lor: LOrExp::LOr(Box::new(lor_of(a)), land_of(b)) }
}

fn ret(e: Exp) -> BlockItem {
    BlockItem::Stmt(Stmt::Return(Return { exp: Some(e) }))
}

fn assign(id: &str, dims: Vec<Exp>, e: Exp) -> Stmt {
    Stmt::Assign(Assign { lval: LVal { id: id.to_string(), dims }, exp: e })
}

fn block(items: Vec<BlockItem>) -> Stmt {
    Stmt::Block(Box::new(Block { items }))
}

fn local(id: &str, init: Option<Exp>) -> BlockItem {
    BlockItem::Decl(Decl::Var(VarDecl {
        defs: vec![VarDef { id: id.to_string(), dims: vec![], init: init.map(InitVal::Exp) }],
    }))
}

fn local_array(id: &str, dims: Vec<i32>, init: Option<InitVal>) -> BlockItem {
    BlockItem::Decl(Decl::Var(VarDecl {
        defs: vec![VarDef {
            id: id.to_string(),
            dims: dims.into_iter().map(|d| ConstExp { exp: num(d) }).collect(),
            init,
        }],
    }))
}

fn list(items: Vec<InitVal>) -> InitVal {
    InitVal::List(Box::new(items))
}

fn item(n: i32) -> InitVal {
    InitVal::Exp(num(n))
}

fn func(ty: FuncType, id: &str, params: Vec<FuncParam>, items: Vec<BlockItem>) -> CompItem {
    CompItem::Func(FuncDef { ty, id: id.to_string(), params, body: Block { items } })
}

fn int_param(id: &str) -> FuncParam {
    FuncParam { id: id.to_string(), dims: None }
}

fn main_of(items: Vec<BlockItem>) -> CompUnit {
    CompUnit { items: vec![func(FuncType::Int, "main", vec![], items)] }
}


// ---- running assembly ----

struct Cpu {
    regs: HashMap<String, i32>,
    mem: HashMap<i32, i32>,
    labels: HashMap<String, usize>,
    data: HashMap<String, i32>,
    code: Vec<Vec<String>>,
    output: Vec<i32>,
    trace: Vec<String>,
}

fn words_of(line: &str) -> Vec<String> {
    line.replace(',', " ").split_whitespace().map(|s| s.to_string()).collect()
}

impl Cpu {
    fn new(text: &str) -> Cpu {
        let mut cpu = Cpu {
            regs: HashMap::new(),
            mem: HashMap::new(),
            labels: HashMap::new(),
            data: HashMap::new(),
            code: vec![],
            output: vec![],
            trace: vec![],
        };
        let mut next_data: i32 = 0x1000;
        let mut in_data: Option<String> = None;
        for line in text.lines() {
            let w = words_of(line);
            if w.is_empty() || w[0] == ".globl" {
                continue;
            }
            if w[0].ends_with(':') {
                let name = w[0].trim_end_matches(':').to_string();
                cpu.labels.insert(name.clone(), cpu.code.len());
                cpu.data.insert(name.clone(), next_data);
                in_data = Some(name);
                continue;
            }
            if w[0] == ".word" {
                cpu.mem.insert(next_data, w[1].parse().unwrap());
                next_data += 4;
                continue;
            }
            if w[0] == ".zero" {
                let n: i32 = w[1].parse().unwrap();
                let mut k = 0;
                while k < n {
                    cpu.mem.insert(next_data + k, 0);
                    k += 4;
                }
                next_data += n;
                continue;
            }
            let _ = &in_data;
            cpu.code.push(w);
        }
        cpu.regs.insert("sp".to_string(), 0x4000_0000);
        cpu.regs.insert("ra".to_string(), -1);
        cpu
    }

    fn get(&self, r: &str) -> i32 {
        if r == "x0" {
            0
        } else {
            *self.regs.get(r).unwrap_or(&0)
        }
    }

    fn set(&mut self, r: &str, v: i32) {
        self.regs.insert(r.to_string(), v);
    }

    /// Splits `off(base)`.
    fn place(&self, s: &str) -> i32 {
        let open = s.find('(').unwrap();
        let off: i32 = s[..open].parse().unwrap();
        let base = &s[open + 1..s.len() - 1];
        self.get(base).wrapping_add(off)
    }

    fn run(&mut self, entry: &str) -> i32 {
        let mut pc = self.labels[entry];
        let mut steps = 0;
        loop {
            steps += 1;
            assert!(steps < 1_000_000, "the program runs too long");
            let w = self.code[pc].clone();
            pc += 1;
            match w[0].as_str() {
                "li" => self.set(&w[1], w[2].parse().unwrap()),
                "la" => {
                    let a = self.data[&w[2]];
                    self.set(&w[1], a)
                }
                "mv" => {
                    let v = self.get(&w[2]);
                    self.set(&w[1], v)
                }
                "lw" => {
                    let a = self.place(&w[2]);
                    let v = *self.mem.get(&a).unwrap_or(&0);
                    self.set(&w[1], v)
                }
                "sw" => {
                    let a = self.place(&w[2]);
                    let v = self.get(&w[1]);
                    if w[1] == "ra" {
                        self.trace.push("save ra".to_string());
                    }
                    self.mem.insert(a, v);
                }
                "addi" => {
                    let v = self.get(&w[2]).wrapping_add(w[3].parse().unwrap());
                    self.set(&w[1], v)
                }
                "add" | "sub" | "mul" | "div" | "rem" | "and" | "or" | "xor" | "slt" | "sgt" => {
                    let a = self.get(&w[2]);
                    let b = self.get(&w[3]);
                    let v = match w[0].as_str() {
                        "add" => a.wrapping_add(b),
                        "sub" => a.wrapping_sub(b),
                        "mul" => a.wrapping_mul(b),
                        "div" => a.wrapping_div(b),
                        "rem" => a.wrapping_rem(b),
                        "and" => a & b,
                        "or" => a | b,
                        "xor" => a ^ b,
                        "slt" => (a < b) as i32,
                        _ => (a > b) as i32,
                    };
                    self.set(&w[1], v)
                }
                "seqz" => {
                    let v = (self.get(&w[2]) == 0) as i32;
                    self.set(&w[1], v)
                }
                "snez" => {
                    let v = (self.get(&w[2]) != 0) as i32;
                    self.set(&w[1], v)
                }
                "bnez" => {
                    if self.get(&w[1]) != 0 {
                        pc = self.labels[&w[2]];
                    }
                }
                "j" => pc = self.labels[&w[1]],
                "call" => {
                    self.trace.push(format!("call {}", w[1]));
                    match w[1].as_str() {
                        "putint" | "putch" => {
                            let v = self.get("a0");
                            self.output.push(v)
                        }
                        "getint" | "getch" => self.set("a0", 0),
                        name => {
                            self.set("ra", pc as i32);
                            pc = self.labels[name];
                        }
                    }
                }
                "ret" => {
                    let ra = self.get("ra");
                    if ra < 0 {
                        return self.get("a0");
                    }
                    pc = ra as usize;
                }
                other => panic!("unknown instruction {}", other),
            }
        }
    }
}

fn compiled(unit: &CompUnit) -> String {
    let (program, info) = generate_mem(unit).expect("the program lowers");
    generate_asm(&program, &info).expect("the program can be written")
}

fn exit_code(unit: &CompUnit) -> i32 {
    let text = compiled(unit);
    let mut cpu = Cpu::new(&text);
    let r = cpu.run("main");
    assert_eq!(cpu.get("sp"), 0x4000_0000, "sp is back where it was");
    r
}

#[test]
fn compiled_main_returns_zero() {
    assert_eq!(exit_code(&main_of(vec![ret(num(0))])), 0);
}

#[test]
fn compiled_locals_and_arithmetic() {
    let unit = main_of(vec![
        local("a", Some(num(2))),
        local("b", Some(num(3))),
        ret(add(mul(var("a"), MulOp::Mul, var("b")), AddOp::Add, num(1))),
    ]);
    assert_eq!(exit_code(&unit), 7);
}

#[test]
fn compiled_two_dimensional_array() {
    let unit = main_of(vec![
        local_array(
            "a",
            vec![2, 2],
            Some(list(vec![list(vec![item(1), item(2)]), list(vec![item(3), item(4)])])),
        ),
        ret(add(at("a", vec![num(1), num(0)]), AddOp::Add, at("a", vec![num(0), num(1)]))),
    ]);
    assert_eq!(exit_code(&unit), 5);
}

fn fibonacci() -> CompUnit {
    let f = func(
        FuncType::Int,
        "f",
        vec![int_param("n")],
        vec![
            BlockItem::Stmt(Stmt::If(Box::new(If {
                cond: rel(var("n"), RelOp::Le, num(1)),
                then: Stmt::Return(Return { exp: Some(var("n")) }),
                els: None,
            }))),
            ret(add(
                call("f", vec![add(var("n"), AddOp::Sub, num(1))]),
                AddOp::Add,
                call("f", vec![add(var("n"), AddOp::Sub, num(2))]),
            )),
        ],
    );
    let main = func(FuncType::Int, "main", vec![], vec![ret(call("f", vec![num(10)]))]);
    CompUnit { items: vec![f, main] }
}

#[test]
fn compiled_recursive_fibonacci() {
    assert_eq!(exit_code(&fibonacci()), 55);
}

#[test]
fn compiled_while_loop_sum() {
    let unit = main_of(vec![
        local("s", Some(num(0))),
        local("i", Some(num(0))),
        BlockItem::Stmt(Stmt::While(Box::new(While {
            cond: rel(var("i"), RelOp::Lt, num(5)),
            body: block(vec![
                BlockItem::Stmt(assign("s", vec![], add(var("s"), AddOp::Add, var("i")))),
                BlockItem::Stmt(assign("i", vec![], add(var("i"), AddOp::Add, num(1)))),
            ]),
        }))),
        ret(var("s")),
    ]);
    assert_eq!(exit_code(&unit), 10);
}

#[test]
fn compiled_global_array_with_constant_size() {
    let unit = CompUnit {
        items: vec![
            CompItem::Decl(Decl::Const(ConstDecl {
                defs: vec![ConstDef {
                    id: "N".to_string(),
                    dims: vec![],
                    init: ConstInitVal::Exp(ConstExp { exp: num(3) }),
                }],
            })),
            CompItem::Decl(Decl::Var(VarDecl {
                defs: vec![VarDef {
                    id: "a".to_string(),
                    dims: vec![ConstExp { exp: var("N") }],
                    init: Some(list(vec![item(1), item(2), item(3)])),
                }],
            })),
            func(
                FuncType::Int,
                "main",
                vec![],
                vec![ret(add(
                    add(at("a", vec![num(0)]), AddOp::Add, at("a", vec![num(1)])),
                    AddOp::Add,
                    at("a", vec![num(2)]),
                ))],
            ),
        ],
    };
    assert_eq!(exit_code(&unit), 6);
}

#[test]
fn compiled_comparisons_and_logic() {
    // int main(){int a=3,b=5; return (a<b) + (a<=b)*2 + (a>b)*4 + (a>=b)*8 + (a==b)*16 + (a!=b)*32
    //            + (a && 0)*64 + (a || 0)*128 + (!a)*256 + (-a + 3 == 0)*512;}
    let a = || var("a");
    let b = || var("b");
    let scaled = |e: Exp, k: i32| mul(e, MulOp::Mul, num(k));
    let mut sum = rel(a(), RelOp::Lt, b());
    for (e, k) in vec![
        (rel(a(), RelOp::Le, b()), 2),
        (rel(a(), RelOp::Gt, b()), 4),
        (rel(a(), RelOp::Ge, b()), 8),
        (eq(a(), EqOp::Eq, b()), 16),
        (eq(a(), EqOp::Ne, b()), 32),
        (land(a(), num(0)), 64),
        (lor(a(), num(0)), 128),
        (unary(UnaryOp::Not, a()), 256),
        (eq(add(unary(UnaryOp::Neg, a()), AddOp::Add, num(3)), EqOp::Eq, num(0)), 512),
    ] {
        sum = add(sum, AddOp::Add, scaled(e, k));
    }
    let unit = main_of(vec![local("a", Some(num(3))), local("b", Some(num(5))), ret(sum)]);
    assert_eq!(exit_code(&unit), 1 + 2 + 32 + 128 + 512);
}

#[test]
fn compiled_array_parameter() {
    // int sum(int a[][2], int n) ... ; int main(){int a[2][2]={1,2,3}; a[1][1]=10; return sum(a,2);}
    let sum = func(
        FuncType::Int,
        "sum",
        vec![
            FuncParam { id: "a".to_string(), dims: Some(vec![ConstExp { exp: num(2) }]) },
            int_param("n"),
        ],
        vec![
            local("s", Some(num(0))),
            local("i", Some(num(0))),
            BlockItem::Stmt(Stmt::While(Box::new(While {
                cond: rel(var("i"), RelOp::Lt, var("n")),
                body: block(vec![
                    BlockItem::Stmt(assign(
                        "s",
                        vec![],
                        add(
                            add(var("s"), AddOp::Add, at("a", vec![var("i"), num(0)])),
                            AddOp::Add,
                            at("a", vec![var("i"), num(1)]),
                        ),
                    )),
                    BlockItem::Stmt(assign("i", vec![], add(var("i"), AddOp::Add, num(1)))),
                ]),
            }))),
            ret(var("s")),
        ],
    );
    let main = func(
        FuncType::Int,
        "main",
        vec![],
        vec![
            local_array("a", vec![2, 2], Some(list(vec![item(1), item(2), item(3)]))),
            BlockItem::Stmt(assign("a", vec![num(1), num(1)], num(10))),
            ret(call("sum", vec![var("a"), num(2)])),
        ],
    );
    assert_eq!(exit_code(&CompUnit { items: vec![sum, main] }), 16);
}

#[test]
fn compiled_ten_arguments() {
    // int f(int a,..,int j){return a+2*b+...+10*j;} int main(){return f(1,1,1,1,1,1,1,1,2,3);}
    let names = ["a", "b", "c", "d", "e", "f", "g", "h", "i", "j"];
    let mut sum = var("a");
    for (k, n) in names.iter().enumerate().skip(1) {
        sum = add(sum, AddOp::Add, mul(var(n), MulOp::Mul, num(k as i32 + 1)));
    }
    let f = func(
        FuncType::Int,
        "f",
        names.iter().map(|n| int_param(n)).collect(),
        vec![ret(sum)],
    );
    let args = vec![1, 1, 1, 1, 1, 1, 1, 1, 2, 3].into_iter().map(num).collect();
    let main = func(FuncType::Int, "main", vec![], vec![ret(call("f", args))]);
    // 1 + 2+3+4+5+6+7+8 + 9*2 + 10*3
    assert_eq!(exit_code(&CompUnit { items: vec![f, main] }), 1 + 35 + 18 + 30);
}

#[test]
fn compiled_large_frame() {
    // int main(){int a[600]; a[599]=7; a[0]=1; return a[599]+a[0];}
    let unit = main_of(vec![
        local_array("a", vec![600], None),
        BlockItem::Stmt(assign("a", vec![num(599)], num(7))),
        BlockItem::Stmt(assign("a", vec![num(0)], num(1))),
        ret(add(at("a", vec![num(599)]), AddOp::Add, at("a", vec![num(0)]))),
    ]);
    assert_eq!(exit_code(&unit), 8);
}

#[test]
fn compiled_global_zero_array_and_putint() {
    // int z[3][2]; int g[2] = {4, 5}; int main(){ z[2][1] = g[1]; putint(z[2][1]); putint(z[0][0]); return g[0]; }
    let unit = CompUnit {
        items: vec![
            CompItem::Decl(Decl::Var(VarDecl {
                defs: vec![VarDef {
                    id: "z".to_string(),
                    dims: vec![ConstExp { exp: num(3) }, ConstExp { exp: num(2) }],
                    init: None,
                }],
            })),
            CompItem::Decl(Decl::Var(VarDecl {
                defs: vec![VarDef {
                    id: "g".to_string(),
                    dims: vec![ConstExp { exp: num(2) }],
                    init: Some(list(vec![item(4), item(5)])),
                }],
            })),
            func(
                FuncType::Int,
                "main",
                vec![],
                vec![
                    BlockItem::Stmt(assign("z", vec![num(2), num(1)], at("g", vec![num(1)]))),
                    BlockItem::Stmt(Stmt::Exp(Some(call(
                        "putint",
                        vec![at("z", vec![num(2), num(1)])],
                    )))),
                    BlockItem::Stmt(Stmt::Exp(Some(call(
                        "putint",
                        vec![at("z", vec![num(0), num(0)])],
                    )))),
                    ret(at("g", vec![num(0)])),
                ],
            ),
        ],
    };
    let text = compiled(&unit);
    let mut cpu = Cpu::new(&text);
    assert_eq!(cpu.run("main"), 4);
    assert_eq!(cpu.output, vec![5, 0]);
}

// ---- the frame ----

#[test]
fn ra_is_saved_before_any_call_and_restored_before_return() {
    let text = compiled(&fibonacci());
    for name in ["f", "main"] {
        let start = text.find(&format!("{}:\n", name)).expect("the function is there");
        let body = &text[start..];
        let save = body.find("sw ra, ").expect("ra is saved");
        let first_call = body.find("  call ").expect("there is a call");
        assert!(save < first_call);
        let first_ret = body.find("  ret ").expect("there is a return");
        let restore = body.find("lw ra, ").expect("ra is restored");
        assert!(restore < first_ret);
    }
    let mut cpu = Cpu::new(&text);
    assert_eq!(cpu.run("main"), 55);
    assert_eq!(cpu.trace[0], "save ra");
    assert_eq!(cpu.trace[1], "call f");
}

#[test]
fn function_without_call_keeps_no_word_for_ra() {
    let text = compiled(&main_of(vec![ret(num(0))]));
    assert_eq!(text, "  .globl main\nmain:\n  addi sp, sp, -0\nmain_entry:\n  li a0, 0\n  addi sp, sp, 0\n  ret \n\n");
}

#[test]
fn assembly_of_the_smallest_program() {
    let text = compiled(&main_of(vec![ret(num(0))]));
    assert_eq!(
        text,
        "  .globl main\nmain:\n  addi sp, sp, -0\nmain_entry:\n  li a0, 0\n  addi sp, sp, 0\n  ret \n\n"
    );
}

#[test]
fn assembly_of_a_local_and_a_sum() {
    let unit = main_of(vec![
        local("a", Some(num(2))),
        ret(add(var("a"), AddOp::Add, num(1))),
    ]);
    let text = compiled(&unit);
    let want = [
        "  .globl main",
        "main:",
        "  addi sp, sp, -12",
        "main_entry:",
        "  li t0, 2",
        "  addi t1, sp, 0",
        "  sw t0, 0(t1)",
        "  addi t0, sp, 0",
        "  lw t0, 0(t0)",
        "  sw t0, 4(sp)",
        "  lw t0, 4(sp)",
        "  li t1, 1",
        "  add t0, t0, t1",
        "  sw t0, 8(sp)",
        "  lw a0, 8(sp)",
        "  addi sp, sp, 12",
        "  ret ",
        "",
        "",
    ]
    .join("\n");
    assert_eq!(text, want);
}
