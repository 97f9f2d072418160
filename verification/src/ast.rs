//! The abstract syntax tree of SysY, as the parser hands it over.

use vstd::prelude::*;

verus! {

/// A whole translation unit: global declarations and function definitions in source order.
#[derive(Debug)]
pub struct CompUnit {
    pub items: Vec<CompItem>,
}

/// One top-level item.
#[derive(Debug)]
pub enum CompItem {
    Func(FuncDef),
    Decl(Decl),
}

/// A declaration, constant or variable.
#[derive(Debug)]
pub enum Decl {
    Const(ConstDecl),
    Var(VarDecl),
}

/// `const int a = 1, b[2] = {1, 2};`
#[derive(Debug)]
pub struct ConstDecl {
    pub defs: Vec<ConstDef>,
}

/// One constant definition; `dims` is empty for a scalar.
#[derive(Debug)]
pub struct ConstDef {
    pub id: String,
    pub dims: Vec<ConstExp>,
    pub init: ConstInitVal,
}

/// Initializer of a constant: one expression or a (possibly nested) list.
#[derive(Debug)]
pub enum ConstInitVal {
    Exp(ConstExp),
    List(Box<Vec<ConstInitVal>>),
}

/// `int a, b[2] = {1, 2};`
#[derive(Debug)]
pub struct VarDecl {
    pub defs: Vec<VarDef>,
}

/// One variable definition; `dims` is empty for a scalar.
#[derive(Debug)]
pub struct VarDef {
    pub id: String,
    pub dims: Vec<ConstExp>,
    pub init: Option<InitVal>,
}

/// Initializer of a variable: one expression or a (possibly nested) list.
#[derive(Debug)]
pub enum InitVal {
    Exp(Exp),
    List(Box<Vec<InitVal>>),
}

/// A function definition.
#[derive(Debug)]
pub struct FuncDef {
    pub ty: FuncType,
    pub id: String,
    pub params: Vec<FuncParam>,
    pub body: Block,
}

/// A parameter; `dims` is present for a pointer-to-array parameter and
/// lists the dimensions after the implicit first one.
#[derive(Debug)]
pub struct FuncParam {
    pub id: String,
    pub dims: Option<Vec<ConstExp>>,
}

/// Return kind of a function.
#[derive(Debug)]
pub enum FuncType {
    Void,
    Int,
}

/// `{ ... }`
#[derive(Debug)]
pub struct Block {
    pub items: Vec<BlockItem>,
}

/// A statement or a declaration inside a block.
#[derive(Debug)]
pub enum BlockItem {
    Stmt(Stmt),
    Decl(Decl),
}

/// A statement.
#[derive(Debug)]
pub enum Stmt {
    Return(Return),
    Assign(Assign),
    Exp(Option<Exp>),
    Block(Box<Block>),
    If(Box<If>),
    While(Box<While>),
    Break(Break),
    Continue(Continue),
}

#[derive(Debug)]
pub struct Return {
    pub exp: Option<Exp>,
}

#[derive(Debug)]
pub struct Assign {
    pub lval: LVal,
    pub exp: Exp,
}

#[derive(Debug)]
pub struct If {
    pub cond: Exp,
    pub then: Stmt,
    pub els: Option<Stmt>,
}

#[derive(Debug)]
pub struct While {
    pub cond: Exp,
    pub body: Stmt,
}

#[derive(Debug)]
pub struct Break;

#[derive(Debug)]
pub struct Continue;

/// An expression; the levels below follow the operator precedence.
#[derive(Debug)]
pub struct Exp {
    pub lor: LOrExp,
}

/// A name with zero or more index expressions.
#[derive(Debug)]
pub struct LVal {
    pub id: String,
    pub dims: Vec<Exp>,
}

#[derive(Debug)]
pub enum PrimaryExp {
    Exp(Box<Exp>),
    LVal(LVal),
    Num(i32),
}

#[derive(Debug)]
pub enum UnaryExp {
    Primary(PrimaryExp),
    Call(Box<Call>),
    Unary(UnaryOp, Box<UnaryExp>),
}

#[derive(Debug)]
pub struct Call {
    pub id: String,
    pub args: Vec<Exp>,
}

#[derive(Debug)]
pub enum UnaryOp {
    Pos,
    Neg,
    Not,
}

#[derive(Debug)]
pub enum MulExp {
    Unary(UnaryExp),
    Mul(Box<MulExp>, MulOp, UnaryExp),
}

#[derive(Debug)]
pub enum MulOp {
    Mul,
    Div,
    Mod,
}

#[derive(Debug)]
pub enum AddExp {
    Mul(MulExp),
    Add(Box<AddExp>, AddOp, MulExp),
}

#[derive(Debug)]
pub enum AddOp {
    Add,
    Sub,
}

#[derive(Debug)]
pub enum RelExp {
    Add(AddExp),
    Rel(Box<RelExp>, RelOp, AddExp),
}

#[derive(Debug)]
pub enum RelOp {
    Lt,
    Gt,
    Le,
    Ge,
}

#[derive(Debug)]
pub enum EqExp {
    Rel(RelExp),
    Eq(Box<EqExp>, EqOp, RelExp),
}

#[derive(Debug)]
pub enum EqOp {
    Eq,
    Ne,
}

#[derive(Debug)]
pub enum LAndExp {
    Eq(EqExp),
    LAnd(Box<LAndExp>, EqExp),
}

#[derive(Debug)]
pub enum LOrExp {
    LAnd(LAndExp),
    LOr(Box<LOrExp>, LAndExp),
}

/// An expression that must fold to a constant.
#[derive(Debug)]
pub struct ConstExp {
    pub exp: Exp,
}

} // verus!
