//! Pure predicates over subtrees: the idiom recognizers that need no state.

use crate::ast::{BinOp, CallData, ClassMember, Expr, Lit, MemberProp, Pat, PropName, Stmt, UnOp};
use crate::text::str_eq;
use std::rc::Rc;
use vstd::prelude::*;

verus! {

/// The property name a member access reaches for, when it is statically
/// known: `x.a`, `x[a]` and `x['a']` all name `a`.
pub open spec fn prop_name_of(p: MemberProp) -> Option<Seq<char>> {
    match p {
        MemberProp::Ident(s) => Some(s@),
        MemberProp::ComputedIdent(s) => Some(s@),
        MemberProp::ComputedStr(s) => Some(s@),
        MemberProp::Other => None,
    }
}

pub fn get_prop_name(p: &MemberProp) -> (r: Option<String>)
    ensures
        match r {
            Some(s) => prop_name_of(*p) == Some(s@),
            None => prop_name_of(*p) is None,
        },
{
    match p {
        MemberProp::Ident(s) => Some(s.clone()),
        MemberProp::ComputedIdent(s) => Some(s.clone()),
        MemberProp::ComputedStr(s) => Some(s.clone()),
        MemberProp::Other => None,
    }
}

/// The string form of an object-literal key, when it has one.
pub open spec fn spec_prop_key(p: PropName) -> Option<Seq<char>> {
    match p {
        PropName::Ident(s) => Some(s@),
        PropName::Str(s) => Some(s@),
        PropName::Other => None,
    }
}

pub fn stringify_prop_name(p: &PropName) -> (r: Option<String>)
    ensures
        match r {
            Some(s) => spec_prop_key(*p) == Some(s@),
            None => spec_prop_key(*p) is None,
        },
{
    match p {
        PropName::Ident(s) => Some(s.clone()),
        PropName::Str(s) => Some(s.clone()),
        PropName::Other => None,
    }
}

/// `e` is a member access `o.p` (or `o['p']`) on the identifier `o`.
pub open spec fn spec_is_member(e: Expr, o: Seq<char>, p: Seq<char>) -> bool {
    &&& e matches Expr::Member { obj, prop }
    &&& (*obj) matches Expr::Ident(name) && name@ == o
    &&& prop_name_of(prop) == Some(p)
}

pub fn is_member(e: &Expr, obj_name: &str, prop_name: &str) -> (r: bool)
    ensures
        r == spec_is_member(*e, obj_name@, prop_name@),
{
    if let Expr::Member { obj, prop } = e {
        if let Expr::Ident(name) = &**obj {
            if str_eq(name.as_str(), obj_name) {
                if let Some(p) = get_prop_name(prop) {
                    return str_eq(p.as_str(), prop_name);
                }
            }
        }
    }
    false
}

/// `e` is a two-level member access `o.m.p` on the identifier `o`.
pub open spec fn spec_is_member_member(e: Expr, o: Seq<char>, m: Seq<char>, p: Seq<char>) -> bool {
    &&& e matches Expr::Member { obj, prop }
    &&& spec_is_member(*obj, o, m)
    &&& prop_name_of(prop) == Some(p)
}

pub fn is_member_member(e: &Expr, obj_name: &str, mid_name: &str, prop_name: &str) -> (r: bool)
    ensures
        r == spec_is_member_member(*e, obj_name@, mid_name@, prop_name@),
{
    if let Expr::Member { obj, prop } = e {
        if is_member(obj, obj_name, mid_name) {
            if let Some(p) = get_prop_name(prop) {
                return str_eq(p.as_str(), prop_name);
            }
        }
    }
    false
}

pub fn is_module_ident(e: &Expr) -> (r: bool)
    ensures
        r == ((*e) matches Expr::Ident(s) && s@ == "module"@),
{
    if let Expr::Ident(s) = e {
        str_eq(s.as_str(), "module")
    } else {
        false
    }
}

/// The specifier of a `require('...')` call, when `c` is one.
pub open spec fn spec_require_arg(c: CallData) -> Option<Seq<char>> {
    if {
        &&& c.callee matches Some(callee)
        &&& (*callee) matches Expr::Ident(n) && n@ == "require"@
        &&& c.args.len() > 0
        &&& (*c.args[0].expr) matches Expr::Lit(Lit::Str(_))
    } {
        match *c.args[0].expr {
            Expr::Lit(Lit::Str(s)) => Some(s@),
            _ => None,
        }
    } else {
        None
    }
}

pub fn is_require_call(c: &CallData) -> (r: Option<String>)
    ensures
        match r {
            Some(s) => spec_require_arg(*c) == Some(s@),
            None => spec_require_arg(*c) is None,
        },
{
    if let Some(callee) = &c.callee {
        if let Expr::Ident(n) = &**callee {
            if str_eq(n.as_str(), "require") && c.args.len() > 0 {
                if let Expr::Lit(Lit::Str(s)) = &*c.args[0].expr {
                    return Some(s.clone());
                }
            }
        }
    }
    None
}

/// A call of a static `Object` method: `Object.defineProperty(...)`,
/// `Object.assign(...)`.
pub fn is_object_static_method_call(c: &CallData, method: &str) -> (r: bool)
    ensures
        r == (c.callee matches Some(callee) && spec_is_member(*callee, "Object"@, method@)),
{
    if let Some(callee) = &c.callee {
        is_member(callee, "Object", method)
    } else {
        false
    }
}

/// The literal UMD parameter list `(global, factory)`.
pub open spec fn spec_is_umd_params(params: Seq<Pat>) -> bool {
    &&& params.len() == 2
    &&& params[0] matches Pat::Ident(g) && g@ == "global"@
    &&& params[1] matches Pat::Ident(f) && f@ == "factory"@
}

pub fn is_umd_params(params: &Vec<Pat>) -> (r: bool)
    ensures
        r == spec_is_umd_params(params@),
{
    if params.len() == 2 {
        if let Pat::Ident(g) = &params[0] {
            if str_eq(g.as_str(), "global") {
                if let Pat::Ident(f) = &params[1] {
                    return str_eq(f.as_str(), "factory");
                }
            }
        }
    }
    false
}

pub open spec fn spec_is_string_literal(e: Expr, value: Seq<char>) -> bool {
    e matches Expr::Lit(Lit::Str(s)) && s@ == value
}

pub fn is_string_literal(e: &Expr, value: &str) -> (r: bool)
    ensures
        r == spec_is_string_literal(*e, value@),
{
    if let Expr::Lit(Lit::Str(s)) = e {
        str_eq(s.as_str(), value)
    } else {
        false
    }
}

pub open spec fn spec_is_typeof(e: Expr, identifier: Seq<char>) -> bool {
    e matches Expr::Unary { op: UnOp::TypeOf, arg } && (*arg) matches Expr::Ident(s) && s@
        == identifier
}

pub fn is_typeof(e: &Expr, identifier: &str) -> (r: bool)
    ensures
        r == spec_is_typeof(*e, identifier@),
{
    if let Expr::Unary { op: UnOp::TypeOf, arg } = e {
        if let Expr::Ident(s) = &**arg {
            return str_eq(s.as_str(), identifier);
        }
    }
    false
}

/// One side of the UMD runtime dispatch: `typeof exports == 'object'`.
pub open spec fn spec_umd_exports_check(e: Expr) -> bool {
    e matches Expr::Bin { op: BinOp::EqEq, left, right } && ((spec_is_typeof(*left, "exports"@)
        && spec_is_string_literal(*right, "object"@)) || (spec_is_typeof(*right, "exports"@)
        && spec_is_string_literal(*left, "object"@)))
}

pub fn is_umd_exports_check(e: &Expr) -> (r: bool)
    ensures
        r == spec_umd_exports_check(*e),
{
    if let Expr::Bin { op: BinOp::EqEq, left, right } = e {
        (is_typeof(left, "exports") && is_string_literal(right, "object")) || (is_typeof(
            right,
            "exports",
        ) && is_string_literal(left, "object"))
    } else {
        false
    }
}

/// `typeof module == 'object'` or `typeof module != 'undefined'`.
pub open spec fn spec_umd_module_check(e: Expr) -> bool {
    match e {
        Expr::Bin { op, left, right } => match op {
            BinOp::EqEq => (spec_is_typeof(*left, "module"@) && spec_is_string_literal(
                *right,
                "object"@,
            )) || (spec_is_typeof(*right, "module"@) && spec_is_string_literal(*left, "object"@)),
            BinOp::NotEq => (spec_is_typeof(*left, "module"@) && spec_is_string_literal(
                *right,
                "undefined"@,
            )) || (spec_is_typeof(*right, "module"@) && spec_is_string_literal(
                *left,
                "undefined"@,
            )),
            _ => false,
        },
        _ => false,
    }
}

pub fn is_umd_module_check(e: &Expr) -> (r: bool)
    ensures
        r == spec_umd_module_check(*e),
{
    if let Expr::Bin { op, left, right } = e {
        match op {
            BinOp::EqEq => (is_typeof(left, "module") && is_string_literal(right, "object")) || (
            is_typeof(right, "module") && is_string_literal(left, "object")),
            BinOp::NotEq => (is_typeof(left, "module") && is_string_literal(right, "undefined"))
                || (is_typeof(right, "module") && is_string_literal(left, "undefined")),
            _ => false,
        }
    } else {
        false
    }
}

/// `typeof define == 'function'`.
pub open spec fn spec_umd_define_check(e: Expr) -> bool {
    e matches Expr::Bin { op: BinOp::EqEq, left, right } && ((spec_is_typeof(*left, "define"@)
        && spec_is_string_literal(*right, "function"@)) || (spec_is_typeof(*right, "define"@)
        && spec_is_string_literal(*left, "function"@)))
}

pub fn is_umd_define_check(e: &Expr) -> (r: bool)
    ensures
        r == spec_umd_define_check(*e),
{
    if let Expr::Bin { op: BinOp::EqEq, left, right } = e {
        (is_typeof(left, "define") && is_string_literal(right, "function")) || (is_typeof(
            right,
            "define",
        ) && is_string_literal(left, "function"))
    } else {
        false
    }
}

/// The canonical UMD runtime dispatch at the head of a wrapper body, in
/// both its `if`/`else if` and its ternary form.
pub open spec fn spec_umd_checks(stmts: Seq<Stmt>) -> bool {
    if stmts.len() == 0 {
        false
    } else {
        match stmts[0] {
            Stmt::Expr(e) => match *e {
                Expr::Cond { test, alt, .. } => match *test {
                    Expr::Bin { op: BinOp::And, left, right } => ((spec_umd_exports_check(*left)
                        && spec_umd_module_check(*right)) || (spec_umd_exports_check(*right)
                        && spec_umd_module_check(*left))) && (match *alt {
                        Expr::Cond { test: alt_test, .. } => match *alt_test {
                            Expr::Bin { op: BinOp::And, left: alt_left, .. } =>
                                spec_umd_define_check(*alt_left),
                            _ => false,
                        },
                        _ => false,
                    }),
                    _ => false,
                },
                _ => false,
            },
            Stmt::If { test, alt, .. } => match *test {
                Expr::Bin { op: BinOp::And, left, right } => ((spec_umd_exports_check(*left)
                    && spec_umd_module_check(*right)) || (spec_umd_exports_check(*right)
                    && spec_umd_module_check(*left))) && (match alt {
                    Some(alt_stmt) => match *alt_stmt {
                        Stmt::If { test: alt_test, .. } => match *alt_test {
                            Expr::Bin { op: BinOp::And, left: alt_left, .. } =>
                                spec_umd_define_check(*alt_left),
                            _ => false,
                        },
                        _ => false,
                    },
                    None => false,
                }),
                _ => false,
            },
            _ => false,
        }
    }
}

pub fn is_umd_checks(stmts: &Vec<Stmt>) -> (r: bool)
    ensures
        r == spec_umd_checks(stmts@),
{
    if stmts.len() == 0 {
        return false;
    }
    match &stmts[0] {
        Stmt::Expr(e) => {
            if let Expr::Cond { test, alt, .. } = &**e {
                if let Expr::Bin { op: BinOp::And, left, right } = &**test {
                    if (is_umd_exports_check(left) && is_umd_module_check(right)) || (
                    is_umd_exports_check(right) && is_umd_module_check(left)) {
                        if let Expr::Cond { test: alt_test, .. } = &**alt {
                            if let Expr::Bin { op: BinOp::And, left: alt_left, .. } = &**alt_test {
                                if is_umd_define_check(alt_left) {
                                    return true;
                                }
                            }
                        }
                    }
                }
            }
            false
        },
        Stmt::If { test, alt, .. } => {
            if let Expr::Bin { op: BinOp::And, left, right } = &**test {
                if (is_umd_exports_check(left) && is_umd_module_check(right)) || (
                is_umd_exports_check(right) && is_umd_module_check(left)) {
                    if let Some(alt_stmt) = alt {
                        if let Stmt::If { test: alt_test, .. } = &**alt_stmt {
                            if let Expr::Bin { op: BinOp::And, left: alt_left, .. } = &**alt_test {
                                if is_umd_define_check(alt_left) {
                                    return true;
                                }
                            }
                        }
                    }
                }
            }
            false
        },
        _ => false,
    }
}

/// One layer of parentheses stripped.
pub open spec fn spec_paren_inner(e: Expr) -> Expr {
    match e {
        Expr::Paren(inner) => *inner,
        other => other,
    }
}

/// The body an immediately-invoked callee offers: a function callee's body
/// or an arrow callee's (normalized) body, behind at most one layer of
/// parentheses.
pub open spec fn spec_iife_body(c: CallData) -> Option<Rc<Vec<Stmt>>> {
    match c.callee {
        Some(callee) => match spec_paren_inner(*callee) {
            Expr::Fn(f) => f.body,
            Expr::Arrow(a) => Some(a.body),
            _ => None,
        },
        None => None,
    }
}

/// The body of an immediately-invoked function or arrow callee, paren-wrapped
/// or bare.
pub fn is_iife_call(c: &CallData) -> (r: Option<Rc<Vec<Stmt>>>)
    ensures
        r == spec_iife_body(*c),
{
    let callee: &Expr = match &c.callee {
        Some(callee) => callee,
        None => {
            return None;
        },
    };
    let callee: &Expr = if let Expr::Paren(inner) = callee {
        inner
    } else {
        callee
    };
    match callee {
        Expr::Fn(f) => {
            match &f.body {
                Some(b) => Some(b.clone()),
                None => None,
            }
        },
        Expr::Arrow(a) => Some(a.body.clone()),
        _ => None,
    }
}

/// A call of the transpiler export helper `__export(...)`.
pub fn is_export_call(c: &CallData) -> (r: bool)
    ensures
        r == (c.callee matches Some(ce) && (*ce) matches Expr::Ident(n) && n@ == "__export"@),
{
    if let Some(callee) = &c.callee {
        if let Expr::Ident(n) = &**callee {
            return str_eq(n.as_str(), "__export");
        }
    }
    false
}

/// A member access on the helper name, or the bare helper name itself.
pub open spec fn spec_export_star_name(e: Expr) -> bool {
    match e {
        Expr::Member { prop, .. } => prop matches MemberProp::Ident(p) && p@ == "__exportStar"@,
        Expr::Ident(n) => n@ == "__exportStar"@,
        _ => false,
    }
}

/// The callee shapes of the star-reexport helper: the helper name or a
/// member reaching it, possibly behind parentheses or at the tail of a
/// comma expression.
pub open spec fn spec_is_export_star_call(c: CallData) -> bool {
    match c.callee {
        Some(ce) => match *ce {
            Expr::Paren(inner) => match *inner {
                Expr::Comma(exprs) => exprs.len() > 0 && spec_export_star_name(
                    exprs[exprs.len() - 1],
                ),
                other => spec_export_star_name(other),
            },
            other => spec_export_star_name(other),
        },
        None => false,
    }
}

/// A call of the transpiler star-reexport helper, through any of its common
/// shapes: `tslib.__exportStar(...)`, `(0, __exportStar)(...)`, a bare
/// `__exportStar(...)`.
pub fn is_tslib_export_star_call(c: &CallData) -> (r: bool)
    ensures
        r == spec_is_export_star_call(*c),
{
    let callee: &Expr = match &c.callee {
        Some(callee) => callee,
        None => {
            return false;
        },
    };
    match callee {
        Expr::Member { prop, .. } => {
            if let MemberProp::Ident(p) = prop {
                return str_eq(p.as_str(), "__exportStar");
            }
            false
        },
        Expr::Ident(n) => str_eq(n.as_str(), "__exportStar"),
        Expr::Paren(inner) => {
            match &**inner {
                Expr::Member { prop, .. } => {
                    if let MemberProp::Ident(p) = prop {
                        return str_eq(p.as_str(), "__exportStar");
                    }
                    false
                },
                Expr::Ident(n) => str_eq(n.as_str(), "__exportStar"),
                Expr::Comma(exprs) => {
                    if exprs.len() > 0 {
                        match &exprs[exprs.len() - 1] {
                            Expr::Member { prop, .. } => {
                                if let MemberProp::Ident(p) = prop {
                                    return str_eq(p.as_str(), "__exportStar");
                                }
                                false
                            },
                            Expr::Ident(n) => str_eq(n.as_str(), "__exportStar"),
                            _ => false,
                        }
                    } else {
                        false
                    }
                },
                _ => false,
            }
        },
        _ => false,
    }
}

/// The name a class member contributes when the receiver is replaced by the
/// class: the key of an identifier-named static field or method.
pub open spec fn spec_static_name(m: ClassMember) -> Option<Seq<char>> {
    match m {
        ClassMember::Field { is_static: true, key: PropName::Ident(s) } => Some(s@),
        ClassMember::Method { is_static: true, key: PropName::Ident(s) } => Some(s@),
        _ => None,
    }
}

/// The names of the identifier-named static members, in source order.
pub open spec fn spec_class_static_names(members: Seq<ClassMember>) -> Seq<Seq<char>>
    decreases members.len(),
{
    if members.len() == 0 {
        Seq::empty()
    } else {
        let front = spec_class_static_names(members.drop_last());
        match spec_static_name(members.last()) {
            Some(s) => front.push(s),
            None => front,
        }
    }
}

/// The identifier-named static members of a class body, in source order.
pub fn get_class_static_names(members: &Vec<ClassMember>) -> (r: Vec<String>)
    ensures
        r@.len() == spec_class_static_names(members@).len(),
        forall|i: int|
            0 <= i < r@.len() ==> r@[i]@ == spec_class_static_names(members@)[i],
{
    let n = members.len();
    let mut names: Vec<String> = Vec::new();
    let mut i: usize = 0;
    while i < n
        invariant
            n == members@.len(),
            i <= n,
            names@.len() == spec_class_static_names(members@.take(i as int)).len(),
            forall|k: int|
                0 <= k < names@.len() ==> names@[k]@ == spec_class_static_names(
                    members@.take(i as int),
                )[k],
        decreases n - i,
    {
        proof {
            assert(members@.take(i + 1).drop_last() =~= members@.take(i as int));
            assert(members@.take(i + 1).last() == members@[i as int]);
        }
        match &members[i] {
            ClassMember::Field { is_static: true, key: PropName::Ident(s) } => {
                names.push(s.clone());
            },
            ClassMember::Method { is_static: true, key: PropName::Ident(s) } => {
                names.push(s.clone());
            },
            _ => {},
        }
        i = i + 1;
    }
    proof {
        assert(members@.take(n as int) =~= members@);
    }
    names
}

/// Whether the statement is the directive literal `'use strict'`.
pub fn is_use_strict(stmt: &Stmt) -> (r: bool)
    ensures
        r == ((*stmt) matches Stmt::Expr(e) && spec_is_string_literal(*e, "use strict"@)),
{
    if let Stmt::Expr(e) = stmt {
        return is_string_literal(e, "use strict");
    }
    false
}

} // verus!
