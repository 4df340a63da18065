//! The parsed and type-checked program, as the indexer reads it.
use vstd::prelude::*;
use crate::position::{Loc, byte_len};

verus! {

/// Where a name was declared.
#[derive(Clone, Debug)]
pub struct DeclSite {
    pub name: String,
    pub loc: Loc,
}

#[derive(Debug)]
pub enum Expr {
    /// A name, possibly selected from an owner: its type as the type checker
    /// shows it, if known, and the declaration it resolves to, if any.
    VarSel {
        loc: Loc,
        name: String,
        ty: Option<String>,
        owner: Option<Box<Expr>>,
        decl: Option<DeclSite>,
    },
    IndexSel { arr: Box<Expr>, idx: Box<Expr> },
    Call { func: Box<Expr>, args: Vec<Expr> },
    Unary { operand: Box<Expr> },
    Binary { lhs: Box<Expr>, rhs: Box<Expr> },
    /// Literals and the other expressions that hold no names.
    Other,
}

/// A variable, parameter or data field declaration.
#[derive(Debug)]
pub struct VarDef {
    pub loc: Loc,
    pub name: String,
    pub ty: Option<String>,
    pub init: Option<Expr>,
}

#[derive(Debug)]
pub struct Block {
    pub stmts: Vec<Stmt>,
}

#[derive(Debug)]
pub enum Stmt {
    Assign { dst: Expr, src: Expr },
    LocalVarDef(VarDef),
    ExprEval(Expr),
    If { cond: Expr, on_true: Block, on_false: Option<Block> },
    While { cond: Expr, body: Block },
    For { init: Box<Stmt>, cond: Expr, update: Box<Stmt>, body: Block },
    Return(Option<Expr>),
    Print(Vec<Expr>),
    Block(Block),
    /// Statements that hold no expressions.
    Other,
}

/// A method: its signature as the type checker shows it.
#[derive(Debug)]
pub struct FuncDef {
    pub loc: Loc,
    pub name: String,
    pub signature: String,
    pub params: Vec<VarDef>,
    pub body: Block,
}

#[derive(Debug)]
pub enum FieldDef {
    Func(FuncDef),
    Var(VarDef),
}

/// A class, from the location of its head to the location of its end.
#[derive(Debug)]
pub struct ClassDef {
    pub loc: Loc,
    pub end: Loc,
    pub name: String,
    pub fields: Vec<FieldDef>,
}

#[derive(Debug)]
pub struct Program {
    pub classes: Vec<ClassDef>,
}

/// The end column of `name` written at `loc` is still a column.
pub open spec fn name_fits(loc: Loc, name: String) -> bool {
    loc.1 + byte_len(name@) <= u32::MAX
}

pub open spec fn expr_fits(e: Expr) -> bool
    decreases e,
{
    match e {
        Expr::VarSel { loc, name, ty, owner, decl } => {
            &&& name_fits(loc, name)
            &&& (owner matches Some(o) ==> expr_fits(*o))
            &&& (decl matches Some(d) ==> name_fits(d.loc, d.name))
        },
        Expr::IndexSel { arr, idx } => expr_fits(*arr) && expr_fits(*idx),
        Expr::Call { func, args } => expr_fits(*func) && exprs_fit(args@),
        Expr::Unary { operand } => expr_fits(*operand),
        Expr::Binary { lhs, rhs } => expr_fits(*lhs) && expr_fits(*rhs),
        Expr::Other => true,
    }
}

pub open spec fn exprs_fit(es: Seq<Expr>) -> bool
    decreases es,
{
    if es.len() == 0 {
        true
    } else {
        exprs_fit(es.subrange(0, es.len() - 1)) && expr_fits(es[es.len() - 1])
    }
}

pub open spec fn var_fits(v: VarDef) -> bool {
    name_fits(v.loc, v.name) && (v.init matches Some(e) ==> expr_fits(e))
}

pub open spec fn stmt_fits(s: Stmt) -> bool
    decreases s,
{
    match s {
        Stmt::Assign { dst, src } => expr_fits(dst) && expr_fits(src),
        Stmt::LocalVarDef(v) => var_fits(v),
        Stmt::ExprEval(e) => expr_fits(e),
        Stmt::If { cond, on_true, on_false } => {
            &&& expr_fits(cond)
            &&& stmts_fit(on_true.stmts@)
            &&& (on_false matches Some(b) ==> stmts_fit(b.stmts@))
        },
        Stmt::While { cond, body } => expr_fits(cond) && stmts_fit(body.stmts@),
        Stmt::For { init, cond, update, body } => {
            &&& stmt_fits(*init)
            &&& expr_fits(cond)
            &&& stmt_fits(*update)
            &&& stmts_fit(body.stmts@)
        },
        Stmt::Return(r) => r matches Some(e) ==> expr_fits(e),
        Stmt::Print(es) => exprs_fit(es@),
        Stmt::Block(b) => stmts_fit(b.stmts@),
        Stmt::Other => true,
    }
}

pub open spec fn stmts_fit(ss: Seq<Stmt>) -> bool
    decreases ss,
{
    if ss.len() == 0 {
        true
    } else {
        stmts_fit(ss.subrange(0, ss.len() - 1)) && stmt_fits(ss[ss.len() - 1])
    }
}

pub open spec fn vars_fit(vs: Seq<VarDef>) -> bool {
    forall|i: int| 0 <= i < vs.len() ==> var_fits(#[trigger] vs[i])
}

pub open spec fn field_fits(f: FieldDef) -> bool {
    match f {
        FieldDef::Func(func) => {
            &&& name_fits(func.loc, func.name)
            &&& vars_fit(func.params@)
            &&& stmts_fit(func.body.stmts@)
        },
        FieldDef::Var(v) => var_fits(v),
    }
}

pub open spec fn class_fits(c: ClassDef) -> bool {
    name_fits(c.loc, c.name) && forall|i: int|
        0 <= i < c.fields.len() ==> field_fits(#[trigger] c.fields@[i])
}

/// Every name of the program ends at a column that can be written.
pub open spec fn program_fits(p: Program) -> bool {
    forall|i: int| 0 <= i < p.classes.len() ==> class_fits(#[trigger] p.classes@[i])
}

} // verus!
