//! The syntax-tree shape the analyzer consumes.
//!
//! The tree is produced by an external parser; the front end reduces the
//! parser's output to these nodes, which carry exactly what the analyzer
//! reads: names, literals and structure. Subtrees that the binding table may
//! retain (object-literal properties, class members, function bodies) sit
//! behind `Rc`, so a nested walk can keep them without copying the tree.

use std::rc::Rc;
use vstd::prelude::*;

verus! {

/// A literal. A number literal carries the bit pattern of its (finite,
/// non-negative) value, so equality and zero-ness are decided without
/// floating point.
pub enum Lit {
    Str(String),
    Num(u64),
    Bool(bool),
    Null,
    Other,
}

/// The binary operators the analyzer interprets; loose and strict
/// (in)equality are not distinguished.
pub enum BinOp {
    And,
    Or,
    EqEq,
    NotEq,
    Other,
}

pub enum UnOp {
    Minus,
    Plus,
    Bang,
    Tilde,
    Void,
    TypeOf,
    Other,
}

/// The key of an object-literal property.
pub enum PropName {
    Ident(String),
    Str(String),
    Other,
}

/// The property part of a member access: `x.a`, `x[a]` or `x['a']`.
pub enum MemberProp {
    Ident(String),
    ComputedIdent(String),
    ComputedStr(String),
    Other,
}

pub enum Prop {
    Shorthand(String),
    KeyValue { key: PropName, value: Rc<Expr> },
    Method { key: PropName },
    Other,
}

pub enum PropOrSpread {
    Prop(Prop),
    Spread(Rc<Expr>),
}

pub enum ClassMember {
    Field { is_static: bool, key: PropName },
    Method { is_static: bool, key: PropName },
    Other,
}

pub enum ObjectPatProp {
    Assign { key: String },
    KeyValue { key: PropName, value_ident: Option<String> },
    Other,
}

pub enum Pat {
    Ident(String),
    Object(Vec<ObjectPatProp>),
    Other,
}

/// The left-hand side of an assignment.
pub enum AssignTarget {
    Ident(String),
    Member { obj: Box<Expr>, prop: MemberProp },
    Other,
}

pub struct ExprOrSpread {
    pub spread: bool,
    pub expr: Box<Expr>,
}

pub struct FnExprData {
    pub params: Vec<Pat>,
    pub body: Option<Rc<Vec<Stmt>>>,
}

/// An arrow function; an expression body is normalized by the front end to a
/// single `return` statement.
pub struct ArrowData {
    pub params: Vec<Pat>,
    pub body: Rc<Vec<Stmt>>,
}

/// A call; `callee` is `None` when the callee is not an expression.
pub struct CallData {
    pub callee: Option<Box<Expr>>,
    pub args: Vec<ExprOrSpread>,
}

/// An assignment; `plain` is true for `=` as opposed to a compound operator.
pub struct AssignData {
    pub plain: bool,
    pub left: AssignTarget,
    pub right: Box<Expr>,
}

pub enum Expr {
    Lit(Lit),
    Ident(String),
    Member { obj: Box<Expr>, prop: MemberProp },
    Call(CallData),
    Comma(Vec<Expr>),
    Paren(Box<Expr>),
    Assign(AssignData),
    Bin { op: BinOp, left: Box<Expr>, right: Box<Expr> },
    Unary { op: UnOp, arg: Box<Expr> },
    Cond { test: Box<Expr>, cons: Box<Expr>, alt: Box<Expr> },
    Object(Rc<Vec<PropOrSpread>>),
    Array(Vec<Option<ExprOrSpread>>),
    Fn(FnExprData),
    Arrow(ArrowData),
    Class(Rc<Vec<ClassMember>>),
    Other,
}

pub struct VarDeclarator {
    pub name: Pat,
    pub init: Option<Box<Expr>>,
}

pub enum Decl {
    Var(Vec<VarDeclarator>),
    Fn { name: String, params: Vec<Pat>, body: Option<Rc<Vec<Stmt>>> },
    Class { name: String, members: Rc<Vec<ClassMember>> },
    Other,
}

pub enum Stmt {
    Decl(Decl),
    Expr(Box<Expr>),
    Block(Vec<Stmt>),
    If { test: Box<Expr>, cons: Box<Stmt>, alt: Option<Box<Stmt>> },
    Return(Option<Box<Expr>>),
    Other,
}

pub fn clone_lit(l: &Lit) -> (r: Lit)
    ensures
        r == *l,
{
    match l {
        Lit::Str(s) => Lit::Str(s.clone()),
        Lit::Num(n) => Lit::Num(*n),
        Lit::Bool(b) => Lit::Bool(*b),
        Lit::Null => Lit::Null,
        Lit::Other => Lit::Other,
    }
}

pub fn clone_prop_name(p: &PropName) -> (r: PropName)
    ensures
        r == *p,
{
    match p {
        PropName::Ident(s) => PropName::Ident(s.clone()),
        PropName::Str(s) => PropName::Str(s.clone()),
        PropName::Other => PropName::Other,
    }
}

pub fn clone_prop(p: &Prop) -> (r: Prop)
    ensures
        r == *p,
{
    match p {
        Prop::Shorthand(s) => Prop::Shorthand(s.clone()),
        Prop::KeyValue { key, value } => Prop::KeyValue { key: clone_prop_name(key), value: value.clone() },
        Prop::Method { key } => Prop::Method { key: clone_prop_name(key) },
        Prop::Other => Prop::Other,
    }
}

pub fn clone_prop_or_spread(p: &PropOrSpread) -> (r: PropOrSpread)
    ensures
        r == *p,
{
    match p {
        PropOrSpread::Prop(q) => PropOrSpread::Prop(clone_prop(q)),
        PropOrSpread::Spread(e) => PropOrSpread::Spread(e.clone()),
    }
}

/// Copies a property list; the property values stay shared.
pub fn clone_props(v: &Vec<PropOrSpread>) -> (r: Vec<PropOrSpread>)
    ensures
        r@ == v@,
{
    let n = v.len();
    let mut r: Vec<PropOrSpread> = Vec::new();
    let mut i: usize = 0;
    while i < n
        invariant
            n == v@.len(),
            i <= n,
            r@.len() == i,
            forall|k: int| 0 <= k < i ==> r@[k] == v@[k],
        decreases n - i,
    {
        r.push(clone_prop_or_spread(&v[i]));
        i = i + 1;
    }
    proof {
        assert(r@ =~= v@);
    }
    r
}

pub fn clone_strings(v: &Vec<String>) -> (r: Vec<String>)
    ensures
        r@ == v@,
{
    let n = v.len();
    let mut r: Vec<String> = Vec::new();
    let mut i: usize = 0;
    while i < n
        invariant
            n == v@.len(),
            i <= n,
            r@.len() == i,
            forall|k: int| 0 <= k < i ==> r@[k] == v@[k],
        decreases n - i,
    {
        r.push(v[i].clone());
        i = i + 1;
    }
    proof {
        assert(r@ =~= v@);
    }
    r
}

} // verus!
