//! The partial-evaluator walker: simulates the common mutation idioms of the
//! legacy module protocol over the syntax tree and collects the export
//! surface.

use crate::ast::{
    clone_lit, clone_props, AssignData, AssignTarget, BinOp, CallData, Decl, Expr, ExprOrSpread,
    Lit, MemberProp, ObjectPatProp, Pat, Prop, PropName, PropOrSpread, Stmt, VarDeclarator,
};
use crate::bindings::{clone_fn_desc, spec_lookup, Binding, FnDesc, IdentKind, IdentMap};
use crate::matchers::{
    get_class_static_names, get_prop_name, is_export_call, is_iife_call, is_member,
    is_member_member, is_module_ident, is_object_static_method_call, is_require_call,
    is_string_literal, is_tslib_export_star_call, is_umd_checks, is_umd_params, is_use_strict,
    stringify_prop_name,
};
use crate::names::{distinct, NameSet};
use crate::text::str_eq;
use std::rc::Rc;
use vstd::prelude::*;
use vstd::string::StringExecFns;

verus! {

/// The output collections hold no duplicates. Established by the empty
/// frame and preserved by every step of the walk.
pub open spec fn sets_ok(l: CJSLexer) -> bool {
    distinct(l.exports@) && distinct(l.reexports@)
}

/// One analysis frame: the binding table, the set of names proven to alias
/// the exports receiver, and the two output collections. A nested body is
/// walked on a copy of the frame, and only the outputs and the returned flag
/// flow back.
pub struct CJSLexer {
    pub node_env: String,
    pub call_mode: bool,
    pub fn_returned: bool,
    pub exports_alias: NameSet,
    pub idents: IdentMap,
    pub exports: NameSet,
    pub reexports: NameSet,
}

pub open spec fn spec_chase_budget(n: nat) -> nat {
    if n < u64::MAX {
        n + 1
    } else {
        n
    }
}

/// The terminal kind a name resolves to through the binding table's alias
/// links, with the frame's own chase budget.
pub open spec fn spec_resolve_kind(l: CJSLexer, name: Seq<char>) -> Option<Rc<IdentKind>> {
    crate::bindings::spec_resolve(l.idents@, name, spec_chase_budget(l.idents@.len()))
}

/// What `as_str` answers: the string the expression evaluates to under the
/// known bindings, with `process.env.NODE_ENV` reading as the environment
/// sentinel.
pub open spec fn spec_as_str(l: CJSLexer, e: Expr) -> Option<Seq<char>>
    decreases e,
{
    match e {
        Expr::Paren(inner) => spec_as_str(l, *inner),
        Expr::Lit(lit) => match lit {
            Lit::Str(s) => Some(s@),
            _ => None,
        },
        Expr::Ident(id) => match spec_resolve_kind(l, id@) {
            Some(k) => match *k {
                IdentKind::Lit(Lit::Str(s)) => Some(s@),
                _ => None,
            },
            None => None,
        },
        Expr::Member { .. } => if crate::matchers::spec_is_member_member(
            e,
            "process"@,
            "env"@,
            "NODE_ENV"@,
        ) {
            Some(l.node_env@)
        } else {
            None
        },
        _ => None,
    }
}

pub open spec fn spec_as_num(l: CJSLexer, e: Expr) -> Option<u64>
    decreases e,
{
    match e {
        Expr::Paren(inner) => spec_as_num(l, *inner),
        Expr::Lit(lit) => match lit {
            Lit::Num(bits) => Some(bits),
            _ => None,
        },
        Expr::Ident(id) => match spec_resolve_kind(l, id@) {
            Some(k) => match *k {
                IdentKind::Lit(Lit::Num(bits)) => Some(bits),
                _ => None,
            },
            None => None,
        },
        _ => None,
    }
}

pub open spec fn spec_as_bool(l: CJSLexer, e: Expr) -> Option<bool>
    decreases e,
{
    match e {
        Expr::Paren(inner) => spec_as_bool(l, *inner),
        Expr::Lit(lit) => match lit {
            Lit::Bool(b) => Some(b),
            _ => None,
        },
        Expr::Ident(id) => match spec_resolve_kind(l, id@) {
            Some(k) => match *k {
                IdentKind::Lit(Lit::Bool(b)) => Some(b),
                _ => None,
            },
            None => None,
        },
        _ => None,
    }
}

pub open spec fn spec_as_null(l: CJSLexer, e: Expr) -> Option<bool>
    decreases e,
{
    match e {
        Expr::Paren(inner) => spec_as_null(l, *inner),
        Expr::Lit(lit) => match lit {
            Lit::Null => Some(true),
            _ => None,
        },
        Expr::Ident(id) => match spec_resolve_kind(l, id@) {
            Some(k) => match *k {
                IdentKind::Lit(Lit::Null) => Some(true),
                _ => None,
            },
            None => None,
        },
        _ => None,
    }
}

/// What `as_obj` answers, reading only the binding table: the property list
/// the expression stands for.
pub open spec fn spec_as_obj_t(t: Seq<Binding>, e: Expr) -> Option<Rc<Vec<PropOrSpread>>>
    decreases e,
{
    match e {
        Expr::Paren(inner) => spec_as_obj_t(t, *inner),
        Expr::Object(props) => Some(props),
        Expr::Ident(id) => match crate::bindings::spec_resolve(t, id@, spec_chase_budget(t.len())) {
            Some(k) => match *k {
                IdentKind::Object(props) => Some(props),
                _ => None,
            },
            None => None,
        },
        _ => None,
    }
}

pub open spec fn spec_as_obj(l: CJSLexer, e: Expr) -> Option<Rc<Vec<PropOrSpread>>> {
    spec_as_obj_t(l.idents@, e)
}

/// What `as_reexport` answers, reading only the binding table: the
/// `require(...)` specifier the expression stands for.
pub open spec fn spec_as_reexport_t(t: Seq<Binding>, e: Expr) -> Option<Seq<char>>
    decreases e,
{
    match e {
        Expr::Paren(inner) => spec_as_reexport_t(t, *inner),
        Expr::Call(call) => crate::matchers::spec_require_arg(call),
        Expr::Ident(id) => match crate::bindings::spec_resolve(t, id@, spec_chase_budget(t.len())) {
            Some(k) => match *k {
                IdentKind::Reexport(file) => Some(file@),
                _ => None,
            },
            None => None,
        },
        _ => None,
    }
}

pub open spec fn spec_as_reexport(l: CJSLexer, e: Expr) -> Option<Seq<char>> {
    spec_as_reexport_t(l.idents@, e)
}

pub open spec fn spec_as_class_t(t: Seq<Binding>, e: Expr) -> Option<
    Rc<Vec<crate::ast::ClassMember>>,
>
    decreases e,
{
    match e {
        Expr::Paren(inner) => spec_as_class_t(t, *inner),
        Expr::Class(members) => Some(members),
        Expr::Ident(id) => match crate::bindings::spec_resolve(t, id@, spec_chase_budget(t.len())) {
            Some(k) => match *k {
                IdentKind::Class(members) => Some(members),
                _ => None,
            },
            None => None,
        },
        _ => None,
    }
}

pub open spec fn spec_as_class(l: CJSLexer, e: Expr) -> Option<Rc<Vec<crate::ast::ClassMember>>> {
    spec_as_class_t(l.idents@, e)
}

/// What `as_function` answers: the function or arrow body the expression
/// stands for (an arrow body arrives already normalized to statements),
/// paired with the static member names attached to it so far.
pub open spec fn spec_as_function_t(t: Seq<Binding>, e: Expr) -> Option<
    (Rc<Vec<Stmt>>, Seq<String>),
>
    decreases e,
{
    match e {
        Expr::Paren(inner) => spec_as_function_t(t, *inner),
        Expr::Fn(f) => match f.body {
            Some(b) => Some((b, Seq::<String>::empty())),
            None => None,
        },
        Expr::Arrow(a) => Some((a.body, Seq::<String>::empty())),
        Expr::Ident(id) => match crate::bindings::spec_resolve(t, id@, spec_chase_budget(t.len())) {
            Some(k) => match *k {
                IdentKind::Fn(desc) => Some((desc.stmts, desc.extends@)),
                _ => None,
            },
            None => None,
        },
        _ => None,
    }
}

pub open spec fn spec_as_function(l: CJSLexer, e: Expr) -> Option<(Rc<Vec<Stmt>>, Seq<String>)> {
    spec_as_function_t(l.idents@, e)
}

pub open spec fn spec_opt_names(o: Option<Seq<char>>) -> Seq<Seq<char>> {
    match o {
        Some(x) => seq![x],
        None => Seq::empty(),
    }
}

/// The names and re-export specifiers one property contributes when an
/// object literal is harvested as the export surface, in discovery order.
pub open spec fn spec_harvest_one(t: Seq<Binding>, p: PropOrSpread, fuel: nat) -> (
    Seq<Seq<char>>,
    Seq<Seq<char>>,
)
    decreases fuel, 0int, 0int,
{
    if fuel == 0 {
        (Seq::empty(), Seq::empty())
    } else {
        match p {
            PropOrSpread::Prop(pp) => (
                match pp {
                    Prop::Shorthand(id) => seq![id@],
                    Prop::KeyValue { key, .. } => spec_opt_names(
                        crate::matchers::spec_prop_key(key),
                    ),
                    Prop::Method { key } => spec_opt_names(crate::matchers::spec_prop_key(key)),
                    Prop::Other => Seq::empty(),
                },
                Seq::empty(),
            ),
            PropOrSpread::Spread(e) => match *e {
                Expr::Ident(_) => {
                    let obj_part = match spec_as_obj_t(t, *e) {
                        Some(inner) => spec_harvest(t, inner@, (fuel - 1) as nat),
                        None => (Seq::empty(), Seq::empty()),
                    };
                    let rx_part = spec_opt_names(spec_as_reexport_t(t, *e));
                    (obj_part.0, obj_part.1 + rx_part)
                },
                Expr::Call(call) => (
                    Seq::empty(),
                    spec_opt_names(crate::matchers::spec_require_arg(call)),
                ),
                _ => (Seq::empty(), Seq::empty()),
            },
        }
    }
}

/// The full harvest of a property list: each property's contribution, in
/// source order.
pub open spec fn spec_harvest(t: Seq<Binding>, props: Seq<PropOrSpread>, fuel: nat) -> (
    Seq<Seq<char>>,
    Seq<Seq<char>>,
)
    decreases fuel, props.len(), 1int,
{
    if fuel == 0 || props.len() == 0 {
        (Seq::empty(), Seq::empty())
    } else {
        let front = spec_harvest(t, props.drop_last(), fuel);
        let last = spec_harvest_one(t, props.last(), fuel);
        (front.0 + last.0, front.1 + last.1)
    }
}

/// The bare-export names of an argument list, in order: each non-spread
/// argument that matches the bare-export idiom contributes its name.
pub open spec fn spec_bare_args(alias: Seq<Seq<char>>, args: Seq<ExprOrSpread>) -> Seq<Seq<char>>
    decreases args.len(),
{
    if args.len() == 0 {
        Seq::empty()
    } else {
        spec_bare_args(alias, args.drop_last()) + (if !args.last().spread {
            spec_opt_names(spec_bare_export_a(alias, *args.last().expr))
        } else {
            Seq::empty()
        })
    }
}

pub open spec fn spec_opt_str(o: Option<&str>) -> Option<Seq<char>> {
    match o {
        Some(s) => Some(s@),
        None => None,
    }
}

/// The exports one statement of a webpack 4 module function contributes: the
/// `__esModule` sentinel for `r.r(t)`, the literal name for
/// `r.d(t, "name", fn)`, and `default` for an assignment to the positional
/// exports parameter's `default` member.
pub open spec fn spec_w4_call(call: CallData, rsym: Seq<char>) -> Seq<Seq<char>> {
    match call.callee {
        Some(ce) => match *ce {
            Expr::Member { obj, prop } => match *obj {
                Expr::Ident(o) => match prop {
                    MemberProp::Ident(p) => {
                        let r_part: Seq<Seq<char>> = if o@ == rsym && p@ == "r"@ {
                            seq!["__esModule"@]
                        } else {
                            Seq::empty()
                        };
                        let d_part: Seq<Seq<char>> = if o@ == rsym && p@ == "d"@
                            && call.args.len() > 1 {
                            match *call.args[1].expr {
                                Expr::Lit(Lit::Str(v)) => seq![v@],
                                _ => Seq::empty(),
                            }
                        } else {
                            Seq::empty()
                        };
                        r_part + d_part
                    },
                    _ => Seq::empty(),
                },
                _ => Seq::empty(),
            },
            _ => Seq::empty(),
        },
        None => Seq::empty(),
    }
}

pub open spec fn spec_w4_one(e: Expr, es: Seq<char>, rs: Option<Seq<char>>, fuel: nat) -> Seq<
    Seq<char>,
>
    decreases fuel, 1int, 0int,
{
    if fuel == 0 {
        Seq::empty()
    } else {
        match e {
            Expr::Comma(exprs) => spec_w4_list(exprs@, es, rs, fuel),
            Expr::Call(call) => match rs {
                Some(rsym) => spec_w4_call(call, rsym),
                None => Seq::empty(),
            },
            Expr::Assign(a) => if a.plain {
                match a.left {
                    AssignTarget::Member { obj, prop } => match prop {
                        MemberProp::Ident(p) => match *obj {
                            Expr::Ident(o) => if o@ == es && p@ == "default"@ {
                                seq!["default"@]
                            } else {
                                Seq::empty()
                            },
                            _ => Seq::empty(),
                        },
                        _ => Seq::empty(),
                    },
                    _ => Seq::empty(),
                }
            } else {
                Seq::empty()
            },
            _ => Seq::empty(),
        }
    }
}

pub open spec fn spec_w4_list(s: Seq<Expr>, es: Seq<char>, rs: Option<Seq<char>>, fuel: nat) -> Seq<
    Seq<char>,
>
    decreases fuel, 0int, s.len(),
{
    if s.len() == 0 || fuel == 0 {
        Seq::empty()
    } else {
        spec_w4_list(s.drop_last(), es, rs, fuel) + spec_w4_one(
            s.last(),
            es,
            rs,
            (fuel - 1) as nat,
        )
    }
}

/// As `spec_reset_effect_x`, except that a replacement resolving to a
/// function walked in call mode (directly or as a zero-argument call) is
/// not pinned beyond the clear. The function-call-mode chains step through
/// this form, so a nested return that itself resets to a called function is
/// pinned one level deep.
pub open spec fn spec_reset_shallow_x(
    t: Seq<Binding>,
    cm: bool,
    ex: Seq<Seq<char>>,
    rx: Seq<Seq<char>>,
    l1: CJSLexer,
    e: Expr,
    fuel: nat,
) -> bool
    decreases e,
{
    match e {
        Expr::Paren(inner) => spec_reset_shallow_x(t, cm, ex, rx, l1, *inner, fuel),
        _ => if fuel == 0 {
            l1.exports@ == ex && l1.reexports@ == rx
        } else if spec_as_reexport_t(t, e) is Some {
            &&& l1.exports@ == Seq::<Seq<char>>::empty()
            &&& l1.reexports@ == seq![spec_as_reexport_t(t, e)->Some_0]
        } else if spec_as_obj_t(t, e) is Some {
            &&& l1.exports@ == crate::names::spec_insert_all(
                Seq::empty(),
                spec_harvest(t, (spec_as_obj_t(t, e)->Some_0)@, (fuel - 1) as nat).0,
            )
            &&& l1.reexports@ == crate::names::spec_insert_all(
                Seq::empty(),
                spec_harvest(t, (spec_as_obj_t(t, e)->Some_0)@, (fuel - 1) as nat).1,
            )
        } else if spec_as_class_t(t, e) is Some {
            &&& l1.exports@ == crate::names::spec_insert_all(
                Seq::empty(),
                crate::matchers::spec_class_static_names((spec_as_class_t(t, e)->Some_0)@),
            )
            &&& l1.reexports@ == Seq::<Seq<char>>::empty()
        } else if spec_as_function_t(t, e) is Some {
            if cm {
                true
            } else {
                &&& l1.exports@ == crate::names::spec_insert_all(
                    Seq::empty(),
                    (spec_as_function_t(t, e)->Some_0).1.map_values(|x: String| x@),
                )
                &&& l1.reexports@ == Seq::<Seq<char>>::empty()
            }
        } else {
            match e {
                Expr::Call(call) => match call.callee {
                    Some(ce) => if call.args.len() == 0 {
                        if spec_as_reexport_t(t, *ce) is Some {
                            &&& l1.exports@ == Seq::<Seq<char>>::empty()
                            &&& l1.reexports@ == seq![
                                spec_as_reexport_t(t, *ce)->Some_0 + "()"@,
                            ]
                        } else if spec_as_function_t(t, *ce) is Some {
                            true
                        } else {
                            l1.exports@ == Seq::<Seq<char>>::empty() && l1.reexports@
                                == Seq::<Seq<char>>::empty()
                        }
                    } else {
                        l1.exports@ == Seq::<Seq<char>>::empty() && l1.reexports@
                            == Seq::<Seq<char>>::empty()
                    },
                    None => l1.exports@ == Seq::<Seq<char>>::empty() && l1.reexports@
                        == Seq::<Seq<char>>::empty(),
                },
                _ => l1.exports@ == Seq::<Seq<char>>::empty() && l1.reexports@
                    == Seq::<Seq<char>>::empty(),
            }
        },
    }
}

/// What walking a called function's body does to the output collections:
/// from a frame holding the caller's table, alias set and sentinel but
/// emptied collections (the reset cleared them) and statement-less mode
/// flags, a marking chain and then a function-call-mode export chain run
/// over the body; the chain's results are the reset's results. Past the
/// depth budget the collections simply stay empty.
pub open spec fn spec_called_fn_effect(
    t: Seq<Binding>,
    alias: Seq<Seq<char>>,
    env: Seq<char>,
    body: Rc<Vec<Stmt>>,
    l1: CJSLexer,
    fuel: nat,
) -> bool {
    if fuel >= 2 {
        exists|c0: CJSLexer, lm: CJSLexer, cf: CJSLexer, k: int, kk: int|
            #![trigger spec_mark_chain(c0, lm, body@, kk, (fuel - 2) as nat),
                spec_export_chain_fn(lm, cf, body@, k, (fuel - 2) as nat)]
            {
                &&& c0.idents@ == t
                &&& c0.exports_alias@ == alias
                &&& c0.node_env@ == env
                &&& c0.exports@ == Seq::<Seq<char>>::empty()
                &&& c0.reexports@ == Seq::<Seq<char>>::empty()
                &&& !c0.call_mode
                &&& !c0.fn_returned
                &&& lm.exports@ == Seq::<Seq<char>>::empty()
                &&& lm.reexports@ == Seq::<Seq<char>>::empty()
                &&& 0 <= kk <= body@.len()
                &&& spec_mark_chain(c0, lm, body@, kk, (fuel - 2) as nat)
                &&& 0 <= k <= body@.len()
                &&& spec_export_chain_fn(lm, cf, body@, k, (fuel - 2) as nat)
                &&& l1.exports@ == cf.exports@
                &&& l1.reexports@ == cf.reexports@
            }
    } else {
        l1.exports@ == Seq::<Seq<char>>::empty() && l1.reexports@ == Seq::<Seq<char>>::empty()
    }
}

/// What the reset primitive does to the output collections, by the class of
/// the replacement expression: a re-export leaves exactly that specifier, an
/// object shape leaves its harvest, a class its static names, a function its
/// attached statics (in statement mode), and a zero-argument call of a
/// re-export the specifier with the invocation suffix. The replacement
/// unconditionally empties both collections first, so an unrecognized one
/// leaves both empty; only a nested walk (function-call mode, or a called
/// function body) is not pinned here. A reset past the depth budget
/// contributes nothing (`ex`/`rx` are the collections before the reset; `t`
/// the binding table, `cm` the frame's call mode).
pub open spec fn spec_reset_effect_x(
    t: Seq<Binding>,
    alias: Seq<Seq<char>>,
    env: Seq<char>,
    cm: bool,
    ex: Seq<Seq<char>>,
    rx: Seq<Seq<char>>,
    l1: CJSLexer,
    e: Expr,
    fuel: nat,
) -> bool
    decreases e,
{
    match e {
        Expr::Paren(inner) => spec_reset_effect_x(t, alias, env, cm, ex, rx, l1, *inner, fuel),
        _ => if fuel == 0 {
            l1.exports@ == ex && l1.reexports@ == rx
        } else if spec_as_reexport_t(t, e) is Some {
            &&& l1.exports@ == Seq::<Seq<char>>::empty()
            &&& l1.reexports@ == seq![spec_as_reexport_t(t, e)->Some_0]
        } else if spec_as_obj_t(t, e) is Some {
            &&& l1.exports@ == crate::names::spec_insert_all(
                Seq::empty(),
                spec_harvest(t, (spec_as_obj_t(t, e)->Some_0)@, (fuel - 1) as nat).0,
            )
            &&& l1.reexports@ == crate::names::spec_insert_all(
                Seq::empty(),
                spec_harvest(t, (spec_as_obj_t(t, e)->Some_0)@, (fuel - 1) as nat).1,
            )
        } else if spec_as_class_t(t, e) is Some {
            &&& l1.exports@ == crate::names::spec_insert_all(
                Seq::empty(),
                crate::matchers::spec_class_static_names((spec_as_class_t(t, e)->Some_0)@),
            )
            &&& l1.reexports@ == Seq::<Seq<char>>::empty()
        } else if spec_as_function_t(t, e) is Some {
            if cm {
                spec_called_fn_effect(
                    t,
                    alias,
                    env,
                    (spec_as_function_t(t, e)->Some_0).0,
                    l1,
                    (fuel - 1) as nat,
                )
            } else {
                &&& l1.exports@ == crate::names::spec_insert_all(
                    Seq::empty(),
                    (spec_as_function_t(t, e)->Some_0).1.map_values(|x: String| x@),
                )
                &&& l1.reexports@ == Seq::<Seq<char>>::empty()
            }
        } else {
            match e {
                Expr::Call(call) => match call.callee {
                    Some(ce) => if call.args.len() == 0 {
                        if spec_as_reexport_t(t, *ce) is Some {
                            &&& l1.exports@ == Seq::<Seq<char>>::empty()
                            &&& l1.reexports@ == seq![
                                spec_as_reexport_t(t, *ce)->Some_0 + "()"@,
                            ]
                        } else if spec_as_function_t(t, *ce) is Some {
                            spec_called_fn_effect(
                                t,
                                alias,
                                env,
                                (spec_as_function_t(t, *ce)->Some_0).0,
                                l1,
                                (fuel - 1) as nat,
                            )
                        } else {
                            l1.exports@ == Seq::<Seq<char>>::empty() && l1.reexports@
                                == Seq::<Seq<char>>::empty()
                        }
                    } else {
                        l1.exports@ == Seq::<Seq<char>>::empty() && l1.reexports@
                            == Seq::<Seq<char>>::empty()
                    },
                    None => l1.exports@ == Seq::<Seq<char>>::empty() && l1.reexports@
                        == Seq::<Seq<char>>::empty(),
                },
                _ => l1.exports@ == Seq::<Seq<char>>::empty() && l1.reexports@
                    == Seq::<Seq<char>>::empty(),
            }
        },
    }
}

/// The full reset effect refines the shallow one: they agree on every arm,
/// and the called-function arms of the full form say strictly more.
pub proof fn lemma_reset_full_implies_shallow(
    t: Seq<Binding>,
    alias: Seq<Seq<char>>,
    env: Seq<char>,
    cm: bool,
    ex: Seq<Seq<char>>,
    rx: Seq<Seq<char>>,
    l1: CJSLexer,
    e: Expr,
    fuel: nat,
)
    requires
        spec_reset_effect_x(t, alias, env, cm, ex, rx, l1, e, fuel),
    ensures
        spec_reset_shallow_x(t, cm, ex, rx, l1, e, fuel),
    decreases e,
{
    if let Expr::Paren(inner) = e {
        lemma_reset_full_implies_shallow(t, alias, env, cm, ex, rx, l1, *inner, fuel);
    }
}

/// Transfers the nested function-call-mode walk's chains into the
/// called-function effect: `mid` is the cleared frame on which the walk
/// ran, `fin` the frame after it.
pub proof fn reset_called_fn_witness(mid: CJSLexer, fin: CJSLexer, body: Rc<Vec<Stmt>>, fuel: nat)
    requires
        mid.exports@ == Seq::<Seq<char>>::empty(),
        mid.reexports@ == Seq::<Seq<char>>::empty(),
        fin.idents == mid.idents,
        fin.exports_alias == mid.exports_alias,
        fuel < 2 ==> fin.exports@ == mid.exports@ && fin.reexports@ == mid.reexports@,
        fuel >= 2 ==> exists|c0: CJSLexer, lm: CJSLexer, cf: CJSLexer, k: int, kk: int|
            #![trigger spec_mark_chain(c0, lm, body@, kk, (fuel - 2) as nat),
                spec_export_chain_fn(lm, cf, body@, k, (fuel - 2) as nat)]
            {
                &&& c0.idents@ == mid.idents@
                &&& c0.exports_alias@ == mid.exports_alias@
                &&& c0.exports@ == mid.exports@
                &&& c0.reexports@ == mid.reexports@
                &&& c0.node_env == mid.node_env
                &&& !c0.call_mode
                &&& !c0.fn_returned
                &&& lm.exports@ == mid.exports@
                &&& lm.reexports@ == mid.reexports@
                &&& lm.node_env == mid.node_env
                &&& !lm.call_mode
                &&& !lm.fn_returned
                &&& 0 <= kk <= body@.len()
                &&& spec_mark_chain(c0, lm, body@, kk, (fuel - 2) as nat)
                &&& 0 <= k <= body@.len()
                &&& spec_export_chain_fn(lm, cf, body@, k, (fuel - 2) as nat)
                &&& k < body@.len() ==> cf.fn_returned
                &&& fin.exports@ == cf.exports@
                &&& fin.reexports@ == cf.reexports@
                &&& fin.fn_returned == cf.fn_returned
            },
    ensures
        spec_called_fn_effect(mid.idents@, mid.exports_alias@, mid.node_env@, body, fin, fuel),
{
    if fuel >= 2 {
        let (c0, lm, cf, k, kk) = choose|c0: CJSLexer, lm: CJSLexer, cf: CJSLexer, k: int, kk: int|
            #![trigger spec_mark_chain(c0, lm, body@, kk, (fuel - 2) as nat),
                spec_export_chain_fn(lm, cf, body@, k, (fuel - 2) as nat)]
            {
                &&& c0.idents@ == mid.idents@
                &&& c0.exports_alias@ == mid.exports_alias@
                &&& c0.exports@ == mid.exports@
                &&& c0.reexports@ == mid.reexports@
                &&& c0.node_env == mid.node_env
                &&& !c0.call_mode
                &&& !c0.fn_returned
                &&& lm.exports@ == mid.exports@
                &&& lm.reexports@ == mid.reexports@
                &&& lm.node_env == mid.node_env
                &&& !lm.call_mode
                &&& !lm.fn_returned
                &&& 0 <= kk <= body@.len()
                &&& spec_mark_chain(c0, lm, body@, kk, (fuel - 2) as nat)
                &&& 0 <= k <= body@.len()
                &&& spec_export_chain_fn(lm, cf, body@, k, (fuel - 2) as nat)
                &&& k < body@.len() ==> cf.fn_returned
                &&& fin.exports@ == cf.exports@
                &&& fin.reexports@ == cf.reexports@
                &&& fin.fn_returned == cf.fn_returned
            };
        assert(spec_mark_chain(c0, lm, body@, kk, (fuel - 2) as nat));
        assert(spec_export_chain_fn(lm, cf, body@, k, (fuel - 2) as nat));
    }
}

pub open spec fn spec_reset_effect(l0: CJSLexer, l1: CJSLexer, e: Expr, fuel: nat) -> bool {
    spec_reset_effect_x(
        l0.idents@,
        l0.exports_alias@,
        l0.node_env@,
        l0.call_mode,
        l0.exports@,
        l0.reexports@,
        l1,
        e,
        fuel,
    )
}

/// What one plain assignment does to the output collections: a property
/// assignment on the exports receiver adds the property name and then
/// interprets a nested assignment the same way; a replacement of
/// `module.exports` or of an exports-aliased identifier applies the reset
/// effect; anything else is tested for the bare-export idiom.
pub open spec fn spec_assign_effect_x(
    t: Seq<Binding>,
    alias: Seq<Seq<char>>,
    env: Seq<char>,
    cm: bool,
    ex: Seq<Seq<char>>,
    rx: Seq<Seq<char>>,
    l1: CJSLexer,
    a: AssignData,
    fuel: nat,
) -> bool
    decreases fuel,
{
    if fuel == 0 || !a.plain {
        l1.exports@ == ex && l1.reexports@ == rx
    } else {
        match a.left {
            AssignTarget::Member { obj, prop } => match crate::matchers::prop_name_of(prop) {
                Some(p) => match *obj {
                    Expr::Ident(o) => if spec_is_exports_ident_a(alias, o@) {
                        match *a.right {
                            Expr::Assign(dep) => spec_assign_effect_x(
                                t,
                                alias,
                                env,
                                cm,
                                crate::names::spec_insert(ex, p),
                                rx,
                                l1,
                                dep,
                                (fuel - 1) as nat,
                            ),
                            _ => l1.exports@ == crate::names::spec_insert(ex, p) && l1.reexports@
                                == rx,
                        }
                    } else if o@ == "module"@ && p == "exports"@ {
                        spec_reset_effect_x(t, alias, env, cm, ex, rx, l1, *a.right, (
                        fuel - 1) as nat)
                    } else {
                        l1.exports@ == ex && l1.reexports@ == rx
                    },
                    Expr::Member { .. } => if crate::matchers::spec_is_member(
                        *obj,
                        "module"@,
                        "exports"@,
                    ) {
                        l1.exports@ == crate::names::spec_insert(ex, p) && l1.reexports@ == rx
                    } else {
                        l1.exports@ == ex && l1.reexports@ == rx
                    },
                    _ => l1.exports@ == ex && l1.reexports@ == rx,
                },
                None => l1.exports@ == ex && l1.reexports@ == rx,
            },
            AssignTarget::Ident(id) => if spec_is_exports_ident_a(alias, id@) {
                spec_reset_effect_x(t, alias, env, cm, ex, rx, l1, *a.right, (fuel - 1) as nat)
            } else {
                match spec_bare_export_a(alias, *a.right) {
                    Some(b) => l1.exports@ == crate::names::spec_insert(ex, b) && l1.reexports@
                        == rx,
                    None => l1.exports@ == ex && l1.reexports@ == rx,
                }
            },
            _ => match spec_bare_export_a(alias, *a.right) {
                Some(b) => l1.exports@ == crate::names::spec_insert(ex, b) && l1.reexports@ == rx,
                None => l1.exports@ == ex && l1.reexports@ == rx,
            },
        }
    }
}

pub open spec fn spec_assign_effect(l0: CJSLexer, l1: CJSLexer, a: AssignData, fuel: nat) -> bool {
    spec_assign_effect_x(
        l0.idents@,
        l0.exports_alias@,
        l0.node_env@,
        l0.call_mode,
        l0.exports@,
        l0.reexports@,
        l1,
        a,
        fuel,
    )
}

/// What `eqeq` answers: structural equality under the literal
/// interpretations, tried in the order string, number, boolean, null;
/// heterogeneous or unresolved operands compare unequal.
pub open spec fn spec_eqeq(l: CJSLexer, a: Expr, b: Expr) -> bool {
    match spec_as_str(l, a) {
        Some(x) => spec_as_str(l, b) matches Some(y) && x == y,
        None => match spec_as_num(l, a) {
            Some(x) => spec_as_num(l, b) matches Some(y) && x == y,
            None => match spec_as_bool(l, a) {
                Some(x) => spec_as_bool(l, b) matches Some(y) && x == y,
                None => match spec_as_null(l, a) {
                    Some(x) => spec_as_null(l, b) matches Some(y) && x == y,
                    None => false,
                },
            },
        },
    }
}

/// What `is_true` answers: the canonical truthiness of literals, the
/// short-circuit of the logical operators, equality dispatched to `eqeq`,
/// an unbound identifier falsy, a bound but unmodeled one truthy, and
/// everything else conservatively truthy.
pub open spec fn spec_is_true(l: CJSLexer, e: Expr) -> bool
    decreases e,
{
    match e {
        Expr::Paren(inner) => spec_is_true(l, *inner),
        Expr::Ident(id) => match spec_resolve_kind(l, id@) {
            Some(k) => match *k {
                IdentKind::Lit(lit) => spec_lit_truthy(lit),
                _ => true,
            },
            None => false,
        },
        Expr::Lit(lit) => spec_lit_truthy(lit),
        Expr::Bin { op, left, right } => match op {
            BinOp::And => spec_is_true(l, *left) && spec_is_true(l, *right),
            BinOp::Or => spec_is_true(l, *left) || spec_is_true(l, *right),
            BinOp::EqEq => spec_eqeq(l, *left, *right),
            BinOp::NotEq => !spec_eqeq(l, *left, *right),
            BinOp::Other => true,
        },
        _ => true,
    }
}

/// The name is the exports receiver: `exports` itself or a proven alias.
pub open spec fn spec_is_exports_ident_a(alias: Seq<Seq<char>>, id: Seq<char>) -> bool {
    id == "exports"@ || alias.contains(id)
}

pub open spec fn spec_is_exports_ident(l: CJSLexer, id: Seq<char>) -> bool {
    spec_is_exports_ident_a(l.exports_alias@, id)
}

/// The expression stands for the exports receiver.
pub open spec fn spec_is_exports_expr_a(alias: Seq<Seq<char>>, e: Expr) -> bool {
    match e {
        Expr::Ident(id) => spec_is_exports_ident_a(alias, id@),
        Expr::Member { .. } => crate::matchers::spec_is_member(e, "module"@, "exports"@),
        _ => false,
    }
}

pub open spec fn spec_is_exports_expr(l: CJSLexer, e: Expr) -> bool {
    spec_is_exports_expr_a(l.exports_alias@, e)
}

/// The property name when `e` is `X.k` with `X` exports-aliased.
pub open spec fn spec_exports_prop_name_a(alias: Seq<Seq<char>>, e: Expr) -> Option<Seq<char>> {
    match e {
        Expr::Member { obj, prop } => match *obj {
            Expr::Ident(o) => if spec_is_exports_ident_a(alias, o@) {
                crate::matchers::prop_name_of(prop)
            } else {
                None
            },
            _ => None,
        },
        _ => None,
    }
}

pub open spec fn spec_exports_prop_name(l: CJSLexer, e: Expr) -> Option<Seq<char>> {
    spec_exports_prop_name_a(l.exports_alias@, e)
}

/// The alias a declarator proves, when its initializer is `module.exports`
/// or an assignment whose target is `module.exports`.
pub open spec fn spec_marks_alias(decl: VarDeclarator) -> Option<Seq<char>> {
    match decl.name {
        Pat::Ident(id) => match decl.init {
            Some(init) => if crate::matchers::spec_is_member(*init, "module"@, "exports"@) {
                Some(id@)
            } else {
                match *init {
                    Expr::Assign(a) => match a.left {
                        AssignTarget::Member { obj, prop } => match *obj {
                            Expr::Ident(o) => if o@ == "module"@
                                && crate::matchers::prop_name_of(prop) == Some("exports"@) {
                                Some(id@)
                            } else {
                                None
                            },
                            _ => None,
                        },
                        _ => None,
                    },
                    _ => None,
                }
            },
            None => None,
        },
        _ => None,
    }
}

/// The name the bare-export idiom yields: `exports.k || (exports.k = {})`,
/// possibly behind an assignment.
pub open spec fn spec_bare_export_a(alias: Seq<Seq<char>>, e: Expr) -> Option<Seq<char>>
    decreases e,
{
    match e {
        Expr::Assign(a) => spec_bare_export_a(alias, *a.right),
        Expr::Bin { op: BinOp::Or, left, right } => match spec_exports_prop_name_a(alias, *left) {
            Some(m) => match *right {
                Expr::Paren(inner) => match *inner {
                    Expr::Assign(a2) => match a2.left {
                        AssignTarget::Member { obj, prop } => match *obj {
                            Expr::Ident(o) => if spec_is_exports_ident_a(alias, o@)
                                && crate::matchers::prop_name_of(prop) == Some(m) {
                                Some(m)
                            } else {
                                None
                            },
                            _ => None,
                        },
                        _ => None,
                    },
                    _ => None,
                },
                _ => None,
            },
            None => None,
        },
        _ => None,
    }
}

pub open spec fn spec_bare_export(l: CJSLexer, e: Expr) -> Option<Seq<char>> {
    spec_bare_export_a(l.exports_alias@, e)
}

/// What `mark_ident` leaves bound to `name`: `r` is the binding looked up
/// after the call, `t` the table and `env` the sentinel before it. An arm
/// that records nothing leaves the old binding in place.
pub open spec fn spec_marked_t(
    t: Seq<Binding>,
    env: Seq<char>,
    name: Seq<char>,
    e: Expr,
    r: Option<Rc<IdentKind>>,
) -> bool
    decreases e,
{
    match e {
        Expr::Paren(inner) => spec_marked_t(t, env, name, *inner, r),
        Expr::Lit(lit) => r matches Some(k) && *k == IdentKind::Lit(lit),
        Expr::Ident(id) => {
            let conflict = spec_lookup(t, id@) matches Some(k0) && (*k0) matches
                IdentKind::Alias(rename) && rename@ == name;
            if conflict {
                r == spec_lookup(t, name)
            } else {
                r matches Some(k) && *k == IdentKind::Alias(id)
            }
        },
        Expr::Call(call) => match crate::matchers::spec_require_arg(call) {
            Some(file) => r matches Some(k) && (*k) matches IdentKind::Reexport(f) && f@ == file,
            None => r == spec_lookup(t, name),
        },
        Expr::Object(props) => r matches Some(k) && *k == IdentKind::Object(props),
        Expr::Class(members) => r matches Some(k) && *k == IdentKind::Class(members),
        Expr::Arrow(arrow) => r matches Some(k) && (*k) matches IdentKind::Fn(d) && d.stmts
            == arrow.body && d.extends@ == Seq::<String>::empty(),
        Expr::Fn(f) => match f.body {
            Some(b) => r matches Some(k) && (*k) matches IdentKind::Fn(d) && d.stmts == b
                && d.extends@ == Seq::<String>::empty(),
            None => r == spec_lookup(t, name),
        },
        Expr::Member { .. } => if crate::matchers::spec_is_member_member(
            e,
            "process"@,
            "env"@,
            "NODE_ENV"@,
        ) {
            r matches Some(k) && (*k) matches IdentKind::Lit(Lit::Str(s)) && s@ == env
        } else {
            r == spec_lookup(t, name)
        },
        _ => r matches Some(k) && *k == IdentKind::Unknown,
    }
}

pub open spec fn spec_marked(l: CJSLexer, name: Seq<char>, e: Expr, r: Option<Rc<IdentKind>>) -> bool {
    spec_marked_t(l.idents@, l.node_env@, name, e, r)
}

/// The name whose binding the marking pass writes for one expression
/// statement, if any: a plain assignment to a known identifier, or a plain
/// dot-assignment on a name bound to an object shape or function.
pub open spec fn spec_mark_expr_target(l: CJSLexer, e: Expr) -> Option<Seq<char>> {
    match e {
        Expr::Assign(a) => if a.plain {
            match a.left {
                AssignTarget::Ident(id) => if spec_lookup(l.idents@, id@) is Some {
                    Some(id@)
                } else {
                    None
                },
                AssignTarget::Member { obj, prop } => match crate::matchers::prop_name_of(prop) {
                    Some(key) => match *obj {
                        Expr::Ident(oid) => if spec_as_obj_t(l.idents@, Expr::Ident(oid)) is Some
                            || spec_as_function_t(l.idents@, Expr::Ident(oid)) is Some {
                            Some(oid@)
                        } else {
                            None
                        },
                        _ => None,
                    },
                    None => None,
                },
                _ => None,
            }
        } else {
            None
        },
        _ => None,
    }
}

/// What the marking pass leaves bound to the written name: a re-marked
/// identifier follows `spec_marked`; a dot-assignment on an object shape
/// appends a synthetic `key: true` property; one on a function appends the
/// key to that function's statics.
pub open spec fn spec_mark_expr_effect(l: CJSLexer, e: Expr, r: Option<Rc<IdentKind>>) -> bool {
    match e {
        Expr::Assign(a) => match a.left {
            AssignTarget::Ident(id) => spec_marked(l, id@, *a.right, r),
            AssignTarget::Member { obj, prop } => match crate::matchers::prop_name_of(prop) {
                Some(key) => match *obj {
                    Expr::Ident(oid) => if spec_as_obj_t(l.idents@, Expr::Ident(oid)) is Some {
                        let props = spec_as_obj_t(l.idents@, Expr::Ident(oid))->Some_0;
                        &&& r matches Some(k)
                        &&& (*k) matches IdentKind::Object(np)
                        &&& np@.len() == props@.len() + 1
                        &&& np@.subrange(0, props@.len() as int) == props@
                        &&& np@.last() matches PropOrSpread::Prop(
                            Prop::KeyValue { key: PropName::Ident(ks), value },
                        ) && ks@ == key && (*value) matches Expr::Lit(Lit::Bool(true))
                    } else if spec_as_function_t(l.idents@, Expr::Ident(oid)) is Some {
                        let desc = spec_as_function_t(l.idents@, Expr::Ident(oid))->Some_0;
                        &&& r matches Some(k)
                        &&& (*k) matches IdentKind::Fn(d)
                        &&& d.stmts == desc.0
                        &&& d.extends@.len() == desc.1.len() + 1
                        &&& d.extends@.subrange(0, desc.1.len() as int) == desc.1
                        &&& d.extends@.last()@ == key
                    } else {
                        true
                    },
                    _ => true,
                },
                None => true,
            },
            _ => true,
        },
        _ => true,
    }
}

/// The statement-mode pass over the declarators of one variable statement,
/// from position `i` on: each declarator may first prove a new exports
/// alias, and its initializer is then tested for the bare-export idiom
/// under the grown alias set. Yields the discovered names in order and the
/// final alias set.
pub open spec fn spec_var_discovery(
    alias: Seq<Seq<char>>,
    decls: Seq<VarDeclarator>,
    i: int,
) -> (Seq<Seq<char>>, Seq<Seq<char>>)
    decreases decls.len() - i,
{
    if i < 0 || i >= decls.len() {
        (Seq::empty(), alias)
    } else {
        let a2 = match spec_marks_alias(decls[i]) {
            Some(nm) => crate::names::spec_insert(alias, nm),
            None => alias,
        };
        let names = match decls[i].init {
            Some(init) => spec_opt_names(spec_bare_export_a(a2, *init)),
            None => Seq::empty(),
        };
        let rest = spec_var_discovery(a2, decls, i + 1);
        (names + rest.0, rest.1)
    }
}

/// The identifier-keyed property names of a helper descriptor object, in
/// source order.
pub open spec fn spec_descriptor_keys(props: Seq<PropOrSpread>) -> Seq<Seq<char>>
    decreases props.len(),
{
    if props.len() == 0 {
        Seq::empty()
    } else {
        let front = spec_descriptor_keys(props.drop_last());
        match props.last() {
            PropOrSpread::Prop(Prop::KeyValue { key: PropName::Ident(k), .. }) => front.push(k@),
            _ => front,
        }
    }
}

/// One element of the webpack export scan: the names it contributes, whether
/// it counts as an install through the helper, and whether it disqualifies
/// the whole statement (a call on a different receiver).
pub open spec fn spec_wp_elem(e: Expr, sym: Seq<char>) -> (Seq<Seq<char>>, bool, bool) {
    match e {
        Expr::Call(c) => match c.callee {
            Some(ce) => match *ce {
                Expr::Member { obj, prop } => match *obj {
                    Expr::Ident(o) => match prop {
                        MemberProp::Ident(p) => if o@ != sym {
                            (Seq::empty(), false, true)
                        } else {
                            let r_names: Seq<Seq<char>> = if p@ == "r"@ {
                                seq!["__esModule"@]
                            } else {
                                Seq::empty()
                            };
                            let d_names: Seq<Seq<char>> = if p@ == "d"@ && c.args.len() > 1 {
                                match *c.args[1].expr {
                                    Expr::Object(props) => spec_descriptor_keys(props@),
                                    _ => Seq::empty(),
                                }
                            } else {
                                Seq::empty()
                            };
                            (r_names + d_names, p@ == "r"@ || d_names.len() > 0, false)
                        },
                        _ => (Seq::empty(), false, false),
                    },
                    _ => (Seq::empty(), false, false),
                },
                _ => (Seq::empty(), false, false),
            },
            None => (Seq::empty(), false, false),
        },
        _ => (Seq::empty(), false, false),
    }
}

/// The webpack export scan over the elements of one comma expression, from
/// position `i` on: names accumulate left to right until a disqualifying
/// call ends the statement; the second component records installs seen
/// before the end, the third whether the statement was disqualified.
pub open spec fn spec_wp_elems(exprs: Seq<Expr>, sym: Seq<char>, i: int) -> (
    Seq<Seq<char>>,
    bool,
    bool,
)
    decreases exprs.len() - i,
{
    if i < 0 || i >= exprs.len() {
        (Seq::empty(), false, false)
    } else {
        let cur = spec_wp_elem(exprs[i], sym);
        if cur.2 {
            (Seq::empty(), false, true)
        } else {
            let rest = spec_wp_elems(exprs, sym, i + 1);
            (cur.0 + rest.0, cur.1 || rest.1, rest.2)
        }
    }
}

/// The webpack export scan over one statement: only a comma expression
/// statement contributes, and a disqualified statement counts as not found.
pub open spec fn spec_wp_stmt(stmt: Stmt, sym: Seq<char>) -> (Seq<Seq<char>>, bool) {
    match stmt {
        Stmt::Expr(e) => match *e {
            Expr::Comma(exprs) => {
                let r = spec_wp_elems(exprs@, sym, 0);
                (r.0, r.1 && !r.2)
            },
            _ => (Seq::empty(), false),
        },
        _ => (Seq::empty(), false),
    }
}

/// The webpack export scan over the wrapper body: up to `budget` statements
/// from position `j` on, stopping after the first statement that yields an
/// install.
pub open spec fn spec_wp_scan(stmts: Seq<Stmt>, sym: Seq<char>, j: int, budget: nat) -> Seq<
    Seq<char>,
>
    decreases budget,
{
    if budget == 0 || j < 0 || j >= stmts.len() {
        Seq::empty()
    } else {
        let st = spec_wp_stmt(stmts[j], sym);
        st.0 + (if st.1 {
            Seq::empty()
        } else {
            spec_wp_scan(stmts, sym, j + 1, (budget - 1) as nat)
        })
    }
}

/// The factory body a UMD call hands to the walk: the second argument's
/// function or arrow body, accepted when the callee is the literal
/// `(global, factory)` wrapper or a function opening with the canonical
/// runtime dispatch.
pub open spec fn spec_umd_factory_body(call: CallData) -> Option<Rc<Vec<Stmt>>> {
    if call.args.len() != 2 {
        None
    } else {
        let a1 = crate::matchers::spec_paren_inner(*call.args[1].expr);
        let stmts = match a1 {
            Expr::Fn(f) => f.body,
            Expr::Arrow(a) => Some(a.body),
            _ => None,
        };
        match call.callee {
            Some(c) => match crate::matchers::spec_paren_inner(*c) {
                Expr::Fn(f) => if crate::matchers::spec_is_umd_params(f.params@) {
                    stmts
                } else {
                    match f.body {
                        Some(b) => if crate::matchers::spec_umd_checks(b@) {
                            stmts
                        } else {
                            None
                        },
                        None => None,
                    }
                },
                Expr::Arrow(a) => if crate::matchers::spec_is_umd_params(a.params@) {
                    stmts
                } else {
                    None
                },
                _ => None,
            },
            None => None,
        }
    }
}

/// The wrapper parameter promoted to an exports alias by the dispatch form
/// of a UMD call: the callee's first parameter, when it is an identifier.
pub open spec fn spec_umd_promoted_alias(call: CallData) -> Option<Seq<char>> {
    if call.args.len() != 2 {
        None
    } else {
        match call.callee {
            Some(c) => match crate::matchers::spec_paren_inner(*c) {
                Expr::Fn(f) => if !crate::matchers::spec_is_umd_params(f.params@) {
                    match f.body {
                        Some(b) => if crate::matchers::spec_umd_checks(b@) && f.params.len() > 0 {
                            match f.params[0] {
                                Pat::Ident(sym) => Some(sym@),
                                _ => None,
                            }
                        } else {
                            None
                        },
                        None => None,
                    }
                } else {
                    None
                },
                _ => None,
            },
            None => None,
        }
    }
}

/// Whether the marking pass reports a reached `return` for one statement:
/// yes for a `return`, no for a declaration or expression, and for a
/// conditional the verdict of the branch its truth test selects. Inside a
/// braced block the binding table evolves between children, so the verdict
/// is not pinned there.
pub open spec fn spec_mark_returned(l: CJSLexer, stmt: Stmt, fuel: nat) -> Option<bool>
    decreases fuel,
{
    if fuel == 0 {
        Some(false)
    } else {
        match stmt {
            Stmt::Return(_) => Some(true),
            Stmt::If { test, cons, alt } => if spec_is_true(l, *test) {
                spec_mark_returned(l, *cons, (fuel - 1) as nat)
            } else {
                match alt {
                    Some(a) => spec_mark_returned(l, *a, (fuel - 1) as nat),
                    None => Some(false),
                }
            },
            Stmt::Block(_) => None,
            _ => Some(false),
        }
    }
}

/// What the expression-statement dispatch does to the output collections,
/// where the matcher table pins it: the assignment rows (plain and behind
/// the dead-branch `&&` telegraph) carry their exact effect, expressions no
/// row claims leave the outputs unchanged, and the call, comma, paren and
/// hoisted-call rows (which may walk nested bodies) are not pinned here.
pub open spec fn spec_parse_effect(l0: CJSLexer, l1: CJSLexer, e: Expr, fuel: nat) -> bool {
    &&& l1.node_env == l0.node_env
    &&& l1.call_mode == l0.call_mode
    &&& if fuel == 0 {
        l1.exports@ == l0.exports@ && l1.reexports@ == l0.reexports@
    } else {
        match e {
            Expr::Assign(a) => {
                &&& l1.idents == l0.idents
                &&& l1.exports_alias == l0.exports_alias
                &&& spec_assign_effect(l0, l1, a, (fuel - 1) as nat)
            },
            Expr::Bin { op, right, .. } => {
                &&& l1.idents == l0.idents
                &&& l1.exports_alias == l0.exports_alias
                &&& if op is And {
                    match *right {
                        Expr::Assign(a) => spec_assign_effect(l0, l1, a, (fuel - 1) as nat),
                        Expr::Paren(p) => match *p {
                            Expr::Assign(a) => spec_assign_effect(l0, l1, a, (fuel - 1) as nat),
                            _ => l1.exports@ == l0.exports@ && l1.reexports@ == l0.reexports@,
                        },
                        _ => l1.exports@ == l0.exports@ && l1.reexports@ == l0.reexports@,
                    }
                } else {
                    l1.exports@ == l0.exports@ && l1.reexports@ == l0.reexports@
                }
            },
            Expr::Call(c) => {
                &&& l1.idents == l0.idents
                &&& l1.exports_alias@ == spec_call_alias_after(l0.exports_alias@, c, (
                fuel - 1) as nat)
                &&& ((fuel >= 2 && spec_dp_shape(c)) ==> spec_dp_effect(l0, l1, c, (
                fuel - 1) as nat))
                &&& ((fuel >= 2 && !spec_dp_shape(c) && spec_oa_shape(c)) ==> spec_oa_chain(
                    l0,
                    l1,
                    c.args@,
                    c.args.len() as int,
                    spec_is_module_ident(*c.args[0].expr),
                    spec_is_exports_expr_a(l0.exports_alias@, *c.args[0].expr),
                    (fuel - 2) as nat,
                ))
                &&& ((fuel >= 2 && !spec_dp_shape(c) && !spec_oa_shape(c)
                    && crate::matchers::spec_is_export_star_call(c) && c.args.len() >= 2) ==> if spec_is_exports_expr_a(
                    l0.exports_alias@,
                    *c.args[1].expr,
                ) {
                    spec_star_effect(l0, l1, *c.args[0].expr, (fuel - 1) as nat)
                } else {
                    l1.exports@ == l0.exports@ && l1.reexports@ == l0.reexports@
                })
                &&& ((fuel >= 2 && !spec_dp_shape(c) && !spec_oa_shape(c) && !(
                crate::matchers::spec_is_export_star_call(c) && c.args.len() >= 2) && (
                c.callee matches Some(ce) && (*ce) matches Expr::Ident(nm) && nm@ == "__export"@)
                    && c.args.len() > 0) ==> spec_star_effect(
                    l0,
                    l1,
                    *c.args[0].expr,
                    (fuel - 1) as nat,
                ))
            },
            Expr::Lit(_) | Expr::Ident(_) | Expr::Member { .. } | Expr::Cond { .. }
                | Expr::Object(_) | Expr::Array(_) | Expr::Fn(_) | Expr::Arrow(_)
                | Expr::Class(_) | Expr::Other => {
                &&& l1.idents == l0.idents
                &&& l1.exports_alias == l0.exports_alias
                &&& l1.exports@ == l0.exports@
                &&& l1.reexports@ == l0.reexports@
            },
            _ => true,
        }
    }
}

/// The exports-alias set after one call row: only the UMD recognizer may
/// promote a wrapper parameter; every other row keeps the set.
pub open spec fn spec_call_alias_after(
    alias: Seq<Seq<char>>,
    c: CallData,
    fuel: nat,
) -> Seq<Seq<char>> {
    if fuel != 0 && spec_no_call_row_before_iife(c) {
        match spec_umd_promoted_alias(c) {
            Some(nm) => crate::names::spec_insert(alias, nm),
            None => alias,
        }
    } else {
        alias
    }
}

/// The expression dispatch over the first `n` elements of a comma
/// expression, one pinned effect after another.
pub open spec fn spec_parse_chain(
    l0: CJSLexer,
    l1: CJSLexer,
    exprs: Seq<Expr>,
    n: int,
    fuel: nat,
) -> bool
    decreases n,
{
    if n <= 0 {
        l1 == l0
    } else {
        exists|lmid: CJSLexer|
            spec_parse_chain(l0, lmid, exprs, n - 1, fuel) && #[trigger] spec_parse_effect(
                lmid,
                l1,
                exprs[n - 1],
                fuel,
            )
    }
}

/// What the statement-mode export pass does for one statement: the
/// variable-discovery row and the expression dispatch carry their effects;
/// a statement no row claims leaves the outputs unchanged; branch walks and
/// the wrapper-return scan are not pinned here.
pub open spec fn spec_export_step(l0: CJSLexer, l1: CJSLexer, stmt: Stmt, fuel: nat) -> bool {
    &&& l1.node_env == l0.node_env
    &&& l1.call_mode == l0.call_mode
    &&& if fuel == 0 {
        l1.exports@ == l0.exports@ && l1.reexports@ == l0.reexports@
    } else {
        match stmt {
            Stmt::Decl(d) => match d {
                Decl::Var(decls) => {
                    &&& l1.idents == l0.idents
                    &&& l1.exports@ == crate::names::spec_insert_all(
                        l0.exports@,
                        spec_var_discovery(l0.exports_alias@, decls@, 0).0,
                    )
                    &&& l1.exports_alias@ == spec_var_discovery(
                        l0.exports_alias@,
                        decls@,
                        0,
                    ).1
                    &&& l1.reexports@ == l0.reexports@
                },
                _ => {
                    &&& l1.idents == l0.idents
                    &&& l1.exports_alias == l0.exports_alias
                    &&& l1.exports@ == l0.exports@
                    &&& l1.reexports@ == l0.reexports@
                },
            },
            Stmt::Expr(e) => spec_parse_effect(l0, l1, *e, (fuel - 1) as nat),
            Stmt::Block(_) => l1.idents == l0.idents && l1.exports_alias == l0.exports_alias,
            Stmt::If { .. } => l1.idents == l0.idents && l1.exports_alias == l0.exports_alias,
            Stmt::Return(arg) => match arg {
                Some(_) => l1.idents == l0.idents,
                None => {
                    &&& l1.idents == l0.idents
                    &&& l1.exports_alias == l0.exports_alias
                    &&& l1.exports@ == l0.exports@
                    &&& l1.reexports@ == l0.reexports@
                },
            },
            Stmt::Other => {
                &&& l1.idents == l0.idents
                &&& l1.exports_alias == l0.exports_alias
                &&& l1.exports@ == l0.exports@
                &&& l1.reexports@ == l0.reexports@
            },
        }
    }
}

/// The export pass over one branch statement, in the requested mode.
pub open spec fn spec_branch_step(
    l0: CJSLexer,
    l1: CJSLexer,
    stmt: Stmt,
    as_fn: bool,
    fuel: nat,
) -> bool {
    if as_fn {
        spec_export_step_fn(l0, l1, stmt, fuel)
    } else {
        spec_export_step(l0, l1, stmt, fuel)
    }
}

/// The export pass over the first `n` statements, one pinned step after
/// another through intermediate frames.
pub open spec fn spec_export_chain(
    l0: CJSLexer,
    l1: CJSLexer,
    stmts: Seq<Stmt>,
    n: int,
    fuel: nat,
) -> bool
    decreases n,
{
    if n <= 0 {
        l1 == l0
    } else {
        exists|lmid: CJSLexer|
            spec_export_chain(l0, lmid, stmts, n - 1, fuel) && #[trigger] spec_export_step(
                lmid,
                l1,
                stmts[n - 1],
                fuel,
            )
    }
}

/// What the function-call-mode export pass does for one statement: a
/// `return` applies the reset effect to its argument (a bare `return` only
/// sets the returned flag), a statement no arm claims changes nothing, and
/// branch walks are not pinned here.
pub open spec fn spec_export_step_fn(l0: CJSLexer, l1: CJSLexer, stmt: Stmt, fuel: nat) -> bool {
    &&& l1.node_env == l0.node_env
    &&& l1.call_mode == l0.call_mode
    &&& l1.idents == l0.idents
    &&& if fuel == 0 {
        &&& l1.exports@ == l0.exports@
        &&& l1.reexports@ == l0.reexports@
        &&& l1.fn_returned == l0.fn_returned
    } else {
        match stmt {
            Stmt::Return(arg) => match arg {
                Some(e) => spec_reset_shallow_x(
                    l0.idents@,
                    l0.call_mode,
                    l0.exports@,
                    l0.reexports@,
                    l1,
                    *e,
                    (fuel - 1) as nat,
                ),
                None => l1.exports@ == l0.exports@ && l1.reexports@ == l0.reexports@
                    && l1.fn_returned,
            },
            Stmt::Block(_) => true,
            Stmt::If { .. } => true,
            _ => {
                &&& l1.exports@ == l0.exports@
                &&& l1.reexports@ == l0.reexports@
                &&& l1.fn_returned == l0.fn_returned
            },
        }
    }
}

/// The function-call-mode export pass over the first `n` statements, one
/// pinned step after another.
pub open spec fn spec_export_chain_fn(
    l0: CJSLexer,
    l1: CJSLexer,
    stmts: Seq<Stmt>,
    n: int,
    fuel: nat,
) -> bool
    decreases n,
{
    if n <= 0 {
        l1 == l0
    } else {
        exists|lmid: CJSLexer|
            spec_export_chain_fn(l0, lmid, stmts, n - 1, fuel) && #[trigger] spec_export_step_fn(
                lmid,
                l1,
                stmts[n - 1],
                fuel,
            )
    }
}

/// The `Object.defineProperty(...)` row's shape: three or more arguments.
pub open spec fn spec_dp_shape(c: CallData) -> bool {
    c.callee matches Some(ce) && crate::matchers::spec_is_member(
        *ce,
        "Object"@,
        "defineProperty"@,
    ) && c.args.len() >= 3
}

/// The scan of a property descriptor from position `i` with `wv` the last
/// `value` property seen so far: whether a `value` or `get` key occurs (the
/// scan stops at the first), and the recorded `value` expression.
pub open spec fn spec_dp_scan(props: Seq<PropOrSpread>, i: int, wv: Option<Rc<Expr>>) -> (
    bool,
    Option<Rc<Expr>>,
)
    decreases props.len() - i,
{
    if i < 0 || i >= props.len() {
        (false, wv)
    } else {
        match props[i] {
            PropOrSpread::Prop(p) => match p {
                Prop::KeyValue { key, value } => {
                    let wv2 = if crate::matchers::spec_prop_key(key) == Some("value"@) {
                        Some(value)
                    } else {
                        wv
                    };
                    if crate::matchers::spec_prop_key(key) == Some("value"@)
                        || crate::matchers::spec_prop_key(key) == Some("get"@) {
                        (true, wv2)
                    } else {
                        spec_dp_scan(props, i + 1, wv2)
                    }
                },
                Prop::Method { key } => if crate::matchers::spec_prop_key(key) == Some("value"@)
                    || crate::matchers::spec_prop_key(key) == Some("get"@) {
                    (true, wv)
                } else {
                    spec_dp_scan(props, i + 1, wv)
                },
                _ => spec_dp_scan(props, i + 1, wv),
            },
            PropOrSpread::Spread(_) => spec_dp_scan(props, i + 1, wv),
        }
    }
}

/// What the `Object.defineProperty` row does: an accessor-bearing descriptor
/// on the exports receiver adds the resolved key; on `module` with the key
/// `'exports'` the descriptor's `value` member is a reset.
pub open spec fn spec_dp_effect(
    l0: CJSLexer,
    l1: CJSLexer,
    c: CallData,
    fuel: nat,
) -> bool {
    let is_module = (*c.args[0].expr) matches Expr::Ident(s) && s@ == "module"@;
    let is_exports = spec_is_exports_expr_a(l0.exports_alias@, *c.args[0].expr);
    let name = spec_as_str(l0, *c.args[1].expr);
    let scan = match spec_as_obj_t(l0.idents@, *c.args[2].expr) {
        Some(props) => spec_dp_scan(props@, 0, None),
        None => (false, None),
    };
    let ex1 = if is_exports && scan.0 && name is Some {
        crate::names::spec_insert(l0.exports@, name->Some_0)
    } else {
        l0.exports@
    };
    if is_module && name == Some("exports"@) && scan.1 is Some {
        spec_reset_effect_x(
            l0.idents@,
            l0.exports_alias@,
            l0.node_env@,
            l0.call_mode,
            ex1,
            l0.reexports@,
            l1,
            *(scan.1->Some_0),
            (fuel - 1) as nat,
        )
    } else {
        l1.exports@ == ex1 && l1.reexports@ == l0.reexports@
    }
}

/// None of the call rows before the immediately-invoked-function rows
/// claims the call.
pub open spec fn spec_no_call_row_before_iife(c: CallData) -> bool {
    &&& !spec_dp_shape(c)
    &&& !spec_oa_shape(c)
    &&& !(crate::matchers::spec_is_export_star_call(c) && c.args.len() >= 2)
    &&& !(c.callee matches Some(ce) && (*ce) matches Expr::Ident(nm) && nm@ == "__export"@
        && c.args.len() > 0)
}

/// The identifier `module` itself.
pub open spec fn spec_is_module_ident(e: Expr) -> bool {
    e matches Expr::Ident(s) && s@ == "module"@
}

/// The `Object.assign(...)` row's shape: two or more arguments.
pub open spec fn spec_oa_shape(c: CallData) -> bool {
    c.callee matches Some(ce) && crate::matchers::spec_is_member(*ce, "Object"@, "assign"@)
        && c.args.len() >= 2
}

/// The first `exports`-keyed property of an `Object.assign(module, ...)`
/// source, scanning from position `i`.
pub open spec fn spec_oa_first_exports(props: Seq<PropOrSpread>, i: int) -> Option<Rc<Expr>>
    decreases props.len() - i,
{
    if i < 0 || i >= props.len() {
        None
    } else {
        match props[i] {
            PropOrSpread::Prop(Prop::KeyValue { key, value }) => if crate::matchers::spec_prop_key(
                key,
            ) == Some("exports"@) {
                Some(value)
            } else {
                spec_oa_first_exports(props, i + 1)
            },
            _ => spec_oa_first_exports(props, i + 1),
        }
    }
}

/// What one source of an `Object.assign(...)` call does, with `is_module`
/// and `is_exports` the classification of the call's target: a `module`
/// target resets to the source's `exports` property, an exports target
/// harvests an object source or records a re-export source.
pub open spec fn spec_oa_step(
    l0: CJSLexer,
    l1: CJSLexer,
    arg: Expr,
    is_module: bool,
    is_exports: bool,
    fuel: nat,
) -> bool {
    &&& l1.node_env == l0.node_env
    &&& l1.call_mode == l0.call_mode
    &&& l1.idents == l0.idents
    &&& l1.exports_alias == l0.exports_alias
    &&& match spec_as_obj_t(l0.idents@, arg) {
        Some(props) => if is_module {
            match spec_oa_first_exports(props@, 0) {
                Some(e) => spec_reset_effect_x(
                    l0.idents@,
                    l0.exports_alias@,
                    l0.node_env@,
                    l0.call_mode,
                    l0.exports@,
                    l0.reexports@,
                    l1,
                    *e,
                    fuel,
                ),
                None => l1.exports@ == l0.exports@ && l1.reexports@ == l0.reexports@,
            }
        } else if is_exports {
            &&& l1.exports@ == crate::names::spec_insert_all(
                l0.exports@,
                spec_harvest(l0.idents@, props@, fuel).0,
            )
            &&& l1.reexports@ == crate::names::spec_insert_all(
                l0.reexports@,
                spec_harvest(l0.idents@, props@, fuel).1,
            )
        } else {
            l1.exports@ == l0.exports@ && l1.reexports@ == l0.reexports@
        },
        None => match spec_as_reexport_t(l0.idents@, arg) {
            Some(r) => if is_exports {
                l1.exports@ == l0.exports@ && l1.reexports@ == crate::names::spec_insert(
                    l0.reexports@,
                    r,
                )
            } else {
                l1.exports@ == l0.exports@ && l1.reexports@ == l0.reexports@
            },
            None => l1.exports@ == l0.exports@ && l1.reexports@ == l0.reexports@,
        },
    }
}

/// The `Object.assign(...)` row over the sources before position `n`, one
/// pinned step after another (the first argument is the target).
pub open spec fn spec_oa_chain(
    l0: CJSLexer,
    l1: CJSLexer,
    args: Seq<ExprOrSpread>,
    n: int,
    is_module: bool,
    is_exports: bool,
    fuel: nat,
) -> bool
    decreases n,
{
    if n <= 1 {
        l1 == l0
    } else {
        exists|lmid: CJSLexer|
            spec_oa_chain(l0, lmid, args, n - 1, is_module, is_exports, fuel)
                && #[trigger] spec_oa_step(lmid, l1, *args[n - 1].expr, is_module, is_exports, fuel)
    }
}

/// What the star-reexport helper rows do (`__exportStar(src, exports)` and
/// `__export(src)`): the source is harvested as an object shape or recorded
/// as a re-export.
pub open spec fn spec_star_effect(l0: CJSLexer, l1: CJSLexer, src: Expr, fuel: nat) -> bool {
    if spec_as_obj_t(l0.idents@, src) is Some {
        &&& l1.exports@ == crate::names::spec_insert_all(
            l0.exports@,
            spec_harvest(l0.idents@, (spec_as_obj_t(l0.idents@, src)->Some_0)@, (
            fuel - 1) as nat).0,
        )
        &&& l1.reexports@ == crate::names::spec_insert_all(
            l0.reexports@,
            spec_harvest(l0.idents@, (spec_as_obj_t(l0.idents@, src)->Some_0)@, (
            fuel - 1) as nat).1,
        )
    } else {
        match spec_as_reexport_t(l0.idents@, src) {
            Some(r) => l1.exports@ == l0.exports@ && l1.reexports@ == crate::names::spec_insert(
                l0.reexports@,
                r,
            ),
            None => l1.exports@ == l0.exports@ && l1.reexports@ == l0.reexports@,
        }
    }
}

/// What one property of an environment destructuring records: a plain or
/// renamed `NODE_ENV` binding becomes the sentinel string; anything else
/// records nothing.
pub open spec fn spec_env_prop_step(l0: CJSLexer, l1: CJSLexer, p: ObjectPatProp) -> bool {
    &&& l1.node_env == l0.node_env
    &&& l1.call_mode == l0.call_mode
    &&& l1.fn_returned == l0.fn_returned
    &&& l1.exports@ == l0.exports@
    &&& l1.reexports@ == l0.reexports@
    &&& l1.exports_alias@ == l0.exports_alias@
    &&& match p {
        ObjectPatProp::Assign { key } => if key@ == "NODE_ENV"@ {
            (spec_lookup(l1.idents@, key@) matches Some(k) && (*k) matches IdentKind::Lit(
                Lit::Str(sv),
            ) && sv@ == l0.node_env@) && (forall|n: Seq<char>|
                n != key@ ==> spec_lookup(l1.idents@, n) == spec_lookup(l0.idents@, n))
        } else {
            l1.idents@ == l0.idents@
        },
        ObjectPatProp::KeyValue { key, value_ident } => match value_ident {
            Some(rename) => if crate::matchers::spec_prop_key(key) == Some("NODE_ENV"@) {
                (spec_lookup(l1.idents@, rename@) matches Some(k) && (*k) matches IdentKind::Lit(
                    Lit::Str(sv),
                ) && sv@ == l0.node_env@) && (forall|n: Seq<char>|
                    n != rename@ ==> spec_lookup(l1.idents@, n) == spec_lookup(l0.idents@, n))
            } else {
                l1.idents@ == l0.idents@
            },
            None => l1.idents@ == l0.idents@,
        },
        ObjectPatProp::Other => l1.idents@ == l0.idents@,
    }
}

/// The destructure over its first `n` properties.
pub open spec fn spec_env_destructure_chain(
    l0: CJSLexer,
    l1: CJSLexer,
    props: Seq<ObjectPatProp>,
    n: int,
) -> bool
    decreases n,
{
    if n <= 0 {
        l1 == l0
    } else {
        exists|lmid: CJSLexer|
            spec_env_destructure_chain(l0, lmid, props, n - 1) && #[trigger] spec_env_prop_step(
                lmid,
                l1,
                props[n - 1],
            )
    }
}

/// What the marking pass does for one declarator: it may prove a new
/// exports alias, and it binds the declared identifier per the classifier
/// (an unmodeled pattern leaves the table unpinned, an absent one records
/// `Unknown`); the output collections never move.
pub open spec fn spec_mark_decl_step(l0: CJSLexer, l1: CJSLexer, d: VarDeclarator) -> bool {
    &&& l1.node_env == l0.node_env
    &&& l1.call_mode == l0.call_mode
    &&& l1.fn_returned == l0.fn_returned
    &&& l1.exports@ == l0.exports@
    &&& l1.reexports@ == l0.reexports@
    &&& l1.exports_alias@ == (match spec_marks_alias(d) {
        Some(nm) => crate::names::spec_insert(l0.exports_alias@, nm),
        None => l0.exports_alias@,
    })
    &&& match d.name {
        Pat::Ident(id) => match d.init {
            Some(init) => spec_marked_t(
                l0.idents@,
                l0.node_env@,
                id@,
                *init,
                spec_lookup(l1.idents@, id@),
            ) && (forall|n: Seq<char>|
                n != id@ ==> spec_lookup(l1.idents@, n) == spec_lookup(l0.idents@, n)),
            None => (spec_lookup(l1.idents@, id@) matches Some(k) && *k == IdentKind::Unknown) && (
            forall|n: Seq<char>|
                n != id@ ==> spec_lookup(l1.idents@, n) == spec_lookup(l0.idents@, n)),
        },
        Pat::Object(props) => if d.init matches Some(i) && crate::matchers::spec_is_member(
            *i,
            "process"@,
            "env"@,
        ) {
            spec_env_destructure_chain(l0, l1, props@, props.len() as int)
        } else {
            l1.idents@ == l0.idents@
        },
        Pat::Other => l1.idents@ == l0.idents@,
    }
}

/// The marking pass over the first `n` declarators of one variable
/// statement.
pub open spec fn spec_mark_decl_chain(
    l0: CJSLexer,
    l1: CJSLexer,
    decls: Seq<VarDeclarator>,
    n: int,
) -> bool
    decreases n,
{
    if n <= 0 {
        l1 == l0
    } else {
        exists|lmid: CJSLexer|
            spec_mark_decl_chain(l0, lmid, decls, n - 1) && #[trigger] spec_mark_decl_step(
                lmid,
                l1,
                decls[n - 1],
            )
    }
}

/// What the marking pass does for one statement: the output collections and
/// the returned flag never move; declarations and expression statements pin
/// the alias set and the binding table per the classifier specs; braced
/// blocks and conditionals (whose children evolve the table mid-way) leave
/// them unpinned.
pub open spec fn spec_mark_step(l0: CJSLexer, l1: CJSLexer, stmt: Stmt, fuel: nat) -> bool {
    &&& l1.node_env == l0.node_env
    &&& l1.call_mode == l0.call_mode
    &&& l1.fn_returned == l0.fn_returned
    &&& l1.exports@ == l0.exports@
    &&& l1.reexports@ == l0.reexports@
    &&& if fuel == 0 {
        l1.exports_alias@ == l0.exports_alias@ && l1.idents@ == l0.idents@
    } else {
        match stmt {
            Stmt::Decl(d) => match d {
                Decl::Var(decls) => spec_mark_decl_chain(l0, l1, decls@, decls.len() as int),
                Decl::Fn { name, body, .. } => {
                    &&& l1.exports_alias@ == l0.exports_alias@
                    &&& match body {
                        Some(b) => (spec_lookup(l1.idents@, name@) matches Some(k) && (*k) matches
                            IdentKind::Fn(dd) && dd.stmts == b && dd.extends@
                            == Seq::<String>::empty()) && (forall|n: Seq<char>|
                            n != name@ ==> spec_lookup(l1.idents@, n) == spec_lookup(
                                l0.idents@,
                                n,
                            )),
                        None => l1.idents@ == l0.idents@,
                    }
                },
                Decl::Class { name, members } => {
                    &&& l1.exports_alias@ == l0.exports_alias@
                    &&& spec_lookup(l1.idents@, name@) matches Some(k) && (*k) matches
                        IdentKind::Class(m) && m == members
                    &&& forall|n: Seq<char>|
                        n != name@ ==> spec_lookup(l1.idents@, n) == spec_lookup(l0.idents@, n)
                },
                Decl::Other => l1.exports_alias@ == l0.exports_alias@ && l1.idents@
                    == l0.idents@,
            },
            Stmt::Expr(e) => {
                &&& l1.exports_alias@ == l0.exports_alias@
                &&& match spec_mark_expr_target(l0, *e) {
                    Some(nm) => spec_mark_expr_effect(l0, *e, spec_lookup(l1.idents@, nm)),
                    None => l1.idents@ == l0.idents@,
                }
                &&& forall|n: Seq<char>|
                    spec_mark_expr_target(l0, *e) != Some(n) ==> spec_lookup(l1.idents@, n)
                        == spec_lookup(l0.idents@, n)
            },
            Stmt::Block(_) => true,
            Stmt::If { .. } => true,
            Stmt::Return(_) => l1.exports_alias@ == l0.exports_alias@ && l1.idents@
                == l0.idents@,
            Stmt::Other => l1.exports_alias@ == l0.exports_alias@ && l1.idents@ == l0.idents@,
        }
    }
}

/// The marking pass over the first `n` statements, one pinned step after
/// another.
pub open spec fn spec_mark_chain(
    l0: CJSLexer,
    l1: CJSLexer,
    stmts: Seq<Stmt>,
    n: int,
    fuel: nat,
) -> bool
    decreases n,
{
    if n <= 0 {
        l1 == l0
    } else {
        exists|lmid: CJSLexer|
            spec_mark_chain(l0, lmid, stmts, n - 1, fuel) && #[trigger] spec_mark_step(
                lmid,
                l1,
                stmts[n - 1],
                fuel,
            )
    }
}

pub open spec fn spec_lit_truthy(l: Lit) -> bool {
    match l {
        Lit::Bool(b) => b,
        Lit::Str(s) => s@.len() != 0,
        Lit::Null => false,
        Lit::Num(bits) => bits != 0,
        Lit::Other => false,
    }
}

/// The canonical truthiness of a literal.
pub fn lit_truthy(l: &Lit) -> (r: bool)
    ensures
        r == spec_lit_truthy(*l),
{
    match l {
        Lit::Bool(b) => *b,
        Lit::Str(s) => !s.as_str().is_empty(),
        Lit::Null => false,
        Lit::Num(bits) => *bits != 0,
        Lit::Other => false,
    }
}

impl CJSLexer {
    /// A fresh frame for one analysis of a module under the given
    /// environment sentinel.
    pub fn new(node_env: &str, call_mode: bool) -> (r: CJSLexer)
        ensures
            sets_ok(r),
            r.node_env@ == node_env@,
            r.call_mode == call_mode,
            !r.fn_returned,
            r.exports_alias@ == Seq::<Seq<char>>::empty(),
            r.idents@ == Seq::<Binding>::empty(),
            r.exports@ == Seq::<Seq<char>>::empty(),
            r.reexports@ == Seq::<Seq<char>>::empty(),
    {
        CJSLexer {
            node_env: node_env.to_owned(),
            call_mode,
            fn_returned: false,
            exports_alias: NameSet::new(),
            idents: IdentMap::new(),
            exports: NameSet::new(),
            reexports: NameSet::new(),
        }
    }

    /// Empties both output collections; the start of every reset.
    fn clear(&mut self)
        ensures
            final(self).exports@ == Seq::<Seq<char>>::empty(),
            final(self).reexports@ == Seq::<Seq<char>>::empty(),
            sets_ok(*final(self)),
            final(self).idents == old(self).idents,
            final(self).exports_alias == old(self).exports_alias,
            final(self).fn_returned == old(self).fn_returned,
            final(self).node_env == old(self).node_env,
            final(self).call_mode == old(self).call_mode,
    {
        self.exports.clear();
        self.reexports.clear();
    }

    /// `exports` itself, or a name proven to alias the exports receiver.
    fn is_exports_ident(&self, id: &str) -> (r: bool)
        ensures
            r == (id@ == "exports"@ || self.exports_alias@.contains(id@)),
    {
        str_eq(id, "exports") || self.exports_alias.contains_name(id)
    }

    /// The expression stands for the exports receiver: an exports-aliased
    /// identifier or the member `module.exports`.
    fn is_exports_expr(&self, e: &Expr) -> (r: bool)
        ensures
            r == spec_is_exports_expr(*self, *e),
    {
        match e {
            Expr::Ident(id) => self.is_exports_ident(id.as_str()),
            Expr::Member { .. } => is_member(e, "module", "exports"),
            _ => false,
        }
    }

    /// The property name when `e` is `X.k` with `X` an exports-aliased
    /// identifier.
    fn get_exports_prop_name(&self, e: &Expr) -> (r: Option<String>)
        ensures
            match r {
                Some(s) => spec_exports_prop_name(*self, *e) == Some(s@),
                None => spec_exports_prop_name(*self, *e) is None,
            },
    {
        if let Expr::Member { obj, prop } = e {
            if let Expr::Ident(o) = &**obj {
                if self.is_exports_ident(o.as_str()) {
                    return get_prop_name(prop);
                }
            }
        }
        None
    }

    /// The alias-chase budget: one step more than the table could need on
    /// any cycle-free chain.
    fn chase_budget(&self) -> (r: u64)
        ensures
            r as nat == spec_chase_budget(self.idents@.len()),
    {
        let n = self.idents.len() as u64;
        if n < u64::MAX {
            n + 1
        } else {
            n
        }
    }

    /// The terminal kind an identifier resolves to, through alias links.
    fn resolve_ident(&self, name: &str) -> (r: Option<Rc<IdentKind>>)
        ensures
            r == spec_resolve_kind(*self, name@),
    {
        let budget = self.chase_budget();
        self.idents.resolve(name, budget)
    }

    /// Classifies `expr` and binds `name` to the corresponding kind. A
    /// mutual alias is suppressed; an unrecognized initializer records
    /// `Unknown`; a `require` call that is not recognizable, a bodiless
    /// function and a plain member access record nothing.
    fn mark_ident(&mut self, name: &str, expr: &Expr)
        ensures
            final(self).node_env == old(self).node_env,
            final(self).call_mode == old(self).call_mode,
            final(self).exports@ == old(self).exports@,
            final(self).reexports@ == old(self).reexports@,
            final(self).exports_alias@ == old(self).exports_alias@,
            final(self).fn_returned == old(self).fn_returned,
            spec_marked(*old(self), name@, *expr, spec_lookup(final(self).idents@, name@)),
            forall|n: Seq<char>|
                n != name@ ==> spec_lookup(final(self).idents@, n) == spec_lookup(
                    old(self).idents@,
                    n,
                ),
        decreases *expr,
    {
        match expr {
            Expr::Paren(inner) => {
                self.mark_ident(name, inner);
            },
            Expr::Lit(l) => {
                self.idents.store(name, Rc::new(IdentKind::Lit(clone_lit(l))));
            },
            Expr::Ident(id) => {
                let conflict = match self.idents.get(id.as_str()) {
                    Some(k) => {
                        if let IdentKind::Alias(rename) = &*k {
                            str_eq(rename.as_str(), name)
                        } else {
                            false
                        }
                    },
                    None => false,
                };
                if !conflict {
                    self.idents.store(name, Rc::new(IdentKind::Alias(id.clone())));
                }
            },
            Expr::Call(call) => {
                if let Some(file) = is_require_call(call) {
                    self.idents.store(name, Rc::new(IdentKind::Reexport(file)));
                }
            },
            Expr::Object(props) => {
                self.idents.store(name, Rc::new(IdentKind::Object(props.clone())));
            },
            Expr::Class(members) => {
                self.idents.store(name, Rc::new(IdentKind::Class(members.clone())));
            },
            Expr::Arrow(arrow) => {
                self.idents.store(
                    name,
                    Rc::new(
                        IdentKind::Fn(FnDesc { stmts: arrow.body.clone(), extends: Vec::new() }),
                    ),
                );
            },
            Expr::Fn(f) => {
                if let Some(body) = &f.body {
                    self.idents.store(
                        name,
                        Rc::new(IdentKind::Fn(FnDesc { stmts: body.clone(), extends: Vec::new() })),
                    );
                }
            },
            Expr::Member { .. } => {
                if is_member_member(expr, "process", "env", "NODE_ENV") {
                    let env = self.node_env.clone();
                    self.idents.store(name, Rc::new(IdentKind::Lit(Lit::Str(env))));
                }
            },
            _ => {
                self.idents.store(name, Rc::new(IdentKind::Unknown));
            },
        }
    }

    /// The string `expr` evaluates to, under the known bindings. A reference
    /// to `process.env.NODE_ENV` evaluates to the environment sentinel.
    fn as_str(&self, expr: &Expr) -> (r: Option<String>)
        ensures
            match r {
                Some(s) => spec_as_str(*self, *expr) == Some(s@),
                None => spec_as_str(*self, *expr) is None,
            },
        decreases *expr,
    {
        match expr {
            Expr::Paren(inner) => self.as_str(inner),
            Expr::Lit(Lit::Str(s)) => Some(s.clone()),
            Expr::Ident(id) => {
                match self.resolve_ident(id.as_str()) {
                    Some(k) => {
                        if let IdentKind::Lit(Lit::Str(s)) = &*k {
                            Some(s.clone())
                        } else {
                            None
                        }
                    },
                    None => None,
                }
            },
            Expr::Member { .. } => {
                if is_member_member(expr, "process", "env", "NODE_ENV") {
                    Some(self.node_env.clone())
                } else {
                    None
                }
            },
            _ => None,
        }
    }

    /// The number (by bit pattern) `expr` evaluates to.
    fn as_num(&self, expr: &Expr) -> (r: Option<u64>)
        ensures
            r == spec_as_num(*self, *expr),
        decreases *expr,
    {
        match expr {
            Expr::Paren(inner) => self.as_num(inner),
            Expr::Lit(Lit::Num(bits)) => Some(*bits),
            Expr::Ident(id) => {
                match self.resolve_ident(id.as_str()) {
                    Some(k) => {
                        if let IdentKind::Lit(Lit::Num(bits)) = &*k {
                            Some(*bits)
                        } else {
                            None
                        }
                    },
                    None => None,
                }
            },
            _ => None,
        }
    }

    fn as_bool(&self, expr: &Expr) -> (r: Option<bool>)
        ensures
            r == spec_as_bool(*self, *expr),
        decreases *expr,
    {
        match expr {
            Expr::Paren(inner) => self.as_bool(inner),
            Expr::Lit(Lit::Bool(b)) => Some(*b),
            Expr::Ident(id) => {
                match self.resolve_ident(id.as_str()) {
                    Some(k) => {
                        if let IdentKind::Lit(Lit::Bool(b)) = &*k {
                            Some(*b)
                        } else {
                            None
                        }
                    },
                    None => None,
                }
            },
            _ => None,
        }
    }

    fn as_null(&self, expr: &Expr) -> (r: Option<bool>)
        ensures
            r == spec_as_null(*self, *expr),
        decreases *expr,
    {
        match expr {
            Expr::Paren(inner) => self.as_null(inner),
            Expr::Lit(Lit::Null) => Some(true),
            Expr::Ident(id) => {
                match self.resolve_ident(id.as_str()) {
                    Some(k) => {
                        if let IdentKind::Lit(Lit::Null) = &*k {
                            Some(true)
                        } else {
                            None
                        }
                    },
                    None => None,
                }
            },
            _ => None,
        }
    }

    /// The object-literal properties `expr` stands for, directly or through
    /// a binding.
    fn as_obj(&self, expr: &Expr) -> (r: Option<Rc<Vec<PropOrSpread>>>)
        ensures
            r == spec_as_obj(*self, *expr),
        decreases *expr,
    {
        match expr {
            Expr::Paren(inner) => self.as_obj(inner),
            Expr::Object(props) => Some(props.clone()),
            Expr::Ident(id) => {
                match self.resolve_ident(id.as_str()) {
                    Some(k) => {
                        if let IdentKind::Object(props) = &*k {
                            Some(props.clone())
                        } else {
                            None
                        }
                    },
                    None => None,
                }
            },
            _ => None,
        }
    }

    /// The `require(...)` specifier `expr` stands for.
    fn as_reexport(&self, expr: &Expr) -> (r: Option<String>)
        ensures
            match r {
                Some(s) => spec_as_reexport(*self, *expr) == Some(s@),
                None => spec_as_reexport(*self, *expr) is None,
            },
        decreases *expr,
    {
        match expr {
            Expr::Paren(inner) => self.as_reexport(inner),
            Expr::Call(call) => is_require_call(call),
            Expr::Ident(id) => {
                match self.resolve_ident(id.as_str()) {
                    Some(k) => {
                        if let IdentKind::Reexport(file) = &*k {
                            Some(file.clone())
                        } else {
                            None
                        }
                    },
                    None => None,
                }
            },
            _ => None,
        }
    }

    fn as_class(&self, expr: &Expr) -> (r: Option<Rc<Vec<crate::ast::ClassMember>>>)
        ensures
            r == spec_as_class(*self, *expr),
        decreases *expr,
    {
        match expr {
            Expr::Paren(inner) => self.as_class(inner),
            Expr::Class(members) => Some(members.clone()),
            Expr::Ident(id) => {
                match self.resolve_ident(id.as_str()) {
                    Some(k) => {
                        if let IdentKind::Class(members) = &*k {
                            Some(members.clone())
                        } else {
                            None
                        }
                    },
                    None => None,
                }
            },
            _ => None,
        }
    }

    /// The function or arrow `expr` stands for: its body, and the statics
    /// attached to it so far.
    fn as_function(&self, expr: &Expr) -> (r: Option<FnDesc>)
        ensures
            match r {
                Some(d) => spec_as_function(*self, *expr) matches Some(sd) && d.stmts == sd.0
                    && d.extends@ == sd.1,
                None => spec_as_function(*self, *expr) is None,
            },
        decreases *expr,
    {
        match expr {
            Expr::Paren(inner) => self.as_function(inner),
            Expr::Fn(f) => {
                match &f.body {
                    Some(body) => Some(FnDesc { stmts: body.clone(), extends: Vec::new() }),
                    None => None,
                }
            },
            Expr::Arrow(a) => Some(FnDesc { stmts: a.body.clone(), extends: Vec::new() }),
            Expr::Ident(id) => {
                match self.resolve_ident(id.as_str()) {
                    Some(k) => {
                        if let IdentKind::Fn(desc) = &*k {
                            Some(clone_fn_desc(desc))
                        } else {
                            None
                        }
                    },
                    None => None,
                }
            },
            _ => None,
        }
    }

    /// Structural equality under the literal interpretations; heterogeneous
    /// or unresolved operands compare unequal.
    fn eqeq(&self, left: &Expr, right: &Expr) -> (r: bool)
        ensures
            r == spec_eqeq(*self, *left, *right),
    {
        match self.as_str(left) {
            Some(a) => {
                match self.as_str(right) {
                    Some(b) => a == b,
                    None => false,
                }
            },
            None => {
                match self.as_num(left) {
                    Some(a) => {
                        match self.as_num(right) {
                            Some(b) => a == b,
                            None => false,
                        }
                    },
                    None => {
                        match self.as_bool(left) {
                            Some(a) => {
                                match self.as_bool(right) {
                                    Some(b) => a == b,
                                    None => false,
                                }
                            },
                            None => {
                                match self.as_null(left) {
                                    Some(a) => {
                                        match self.as_null(right) {
                                            Some(b) => a == b,
                                            None => false,
                                        }
                                    },
                                    None => false,
                                }
                            },
                        }
                    },
                }
            },
        }
    }

    /// Whether the test is provably true. An identifier absent from the
    /// table is falsy (undefined); one bound but unmodeled is conservatively
    /// truthy, so guarded re-export blocks are not dropped.
    fn is_true(&self, expr: &Expr) -> (r: bool)
        ensures
            r == spec_is_true(*self, *expr),
        decreases *expr,
    {
        match expr {
            Expr::Paren(inner) => self.is_true(inner),
            Expr::Ident(id) => {
                match self.resolve_ident(id.as_str()) {
                    Some(k) => {
                        if let IdentKind::Lit(l) = &*k {
                            lit_truthy(l)
                        } else {
                            true
                        }
                    },
                    None => false,
                }
            },
            Expr::Lit(l) => lit_truthy(l),
            Expr::Bin { op, left, right } => {
                match op {
                    BinOp::And => self.is_true(left) && self.is_true(right),
                    BinOp::Or => self.is_true(left) || self.is_true(right),
                    BinOp::EqEq => self.eqeq(left, right),
                    BinOp::NotEq => !self.eqeq(left, right),
                    BinOp::Other => true,
                }
            },
            _ => true,
        }
    }

    /// Records `x` as an exports alias for `var x = module.exports` and
    /// `var x = module.exports = E`.
    fn try_to_mark_exports_alias(&mut self, decl: &VarDeclarator)
        ensures
            final(self).node_env == old(self).node_env,
            final(self).call_mode == old(self).call_mode,
            final(self).exports@ == old(self).exports@,
            final(self).reexports@ == old(self).reexports@,
            final(self).idents == old(self).idents,
            final(self).fn_returned == old(self).fn_returned,
            match spec_marks_alias(*decl) {
                Some(nm) => final(self).exports_alias@ == crate::names::spec_insert(
                    old(self).exports_alias@,
                    nm,
                ),
                None => final(self).exports_alias@ == old(self).exports_alias@,
            },
    {
        if let Pat::Ident(id) = &decl.name {
            if let Some(init) = &decl.init {
                if is_member(init, "module", "exports") {
                    self.exports_alias.insert(id.clone());
                } else if let Expr::Assign(assign) = &**init {
                    if let AssignTarget::Member { obj, prop } = &assign.left {
                        if let Expr::Ident(o) = &**obj {
                            if str_eq(o.as_str(), "module") {
                                if let Some(p) = get_prop_name(prop) {
                                    if str_eq(p.as_str(), "exports") {
                                        self.exports_alias.insert(id.clone());
                                    }
                                }
                            }
                        }
                    }
                }
            }
        }
    }

    /// The "bare export" idiom: `exports.k || (exports.k = {})`, possibly
    /// behind an assignment; yields `k`.
    fn get_bare_export_names(&self, expr: &Expr) -> (r: Option<String>)
        ensures
            match r {
                Some(s) => spec_bare_export(*self, *expr) == Some(s@),
                None => spec_bare_export(*self, *expr) is None,
            },
        decreases *expr,
    {
        if let Expr::Assign(assign) = expr {
            return self.get_bare_export_names(&assign.right);
        }
        if let Expr::Bin { op: BinOp::Or, left, right } = expr {
            if let Some(member_prop_name) = self.get_exports_prop_name(left) {
                if let Expr::Paren(inner) = &**right {
                    if let Expr::Assign(assign) = &**inner {
                        if let AssignTarget::Member { obj, prop } = &assign.left {
                            if let Expr::Ident(o) = &**obj {
                                if self.is_exports_ident(o.as_str()) {
                                    if let Some(p) = get_prop_name(prop) {
                                        if str_eq(p.as_str(), member_prop_name.as_str()) {
                                            return Some(member_prop_name);
                                        }
                                    }
                                }
                            }
                        }
                    }
                }
            }
        }
        None
    }

    /// Harvests an object literal's properties as exports: shorthand and
    /// keyed properties contribute their names; a spread contributes the
    /// properties of a resolved object or the specifier of a resolved
    /// `require(...)` as a re-export.
    fn use_object_as_exports(&mut self, props: &Vec<PropOrSpread>, fuel: u64)
        requires
            sets_ok(*old(self)),
        ensures
            sets_ok(*final(self)),
            final(self).idents == old(self).idents,
            final(self).exports_alias == old(self).exports_alias,
            final(self).fn_returned == old(self).fn_returned,
            final(self).node_env == old(self).node_env,
            final(self).call_mode == old(self).call_mode,
            final(self).exports@ == crate::names::spec_insert_all(
                old(self).exports@,
                spec_harvest(old(self).idents@, props@, fuel as nat).0,
            ),
            final(self).reexports@ == crate::names::spec_insert_all(
                old(self).reexports@,
                spec_harvest(old(self).idents@, props@, fuel as nat).1,
            ),
        decreases fuel,
    {
        let ghost t0 = self.idents@;
        let ghost ex0 = self.exports@;
        let ghost rx0 = self.reexports@;
        if fuel == 0 {
            return ;
        }
        let f: u64 = fuel - 1;
        let n = props.len();
        let mut i: usize = 0;
        proof {
            assert(props@.take(0) =~= Seq::<PropOrSpread>::empty());
        }
        while i < n
            invariant
                self.node_env == old(self).node_env,
                self.call_mode == old(self).call_mode,
                f == fuel - 1,
                n == props@.len(),
                i <= n,
                sets_ok(*self),
                self.idents == old(self).idents,
                self.exports_alias == old(self).exports_alias,
                self.fn_returned == old(self).fn_returned,
                self.node_env == old(self).node_env,
                self.call_mode == old(self).call_mode,
                t0 == self.idents@,
                ex0 == old(self).exports@,
                rx0 == old(self).reexports@,
                self.exports@ == crate::names::spec_insert_all(
                    ex0,
                    spec_harvest(t0, props@.take(i as int), fuel as nat).0,
                ),
                self.reexports@ == crate::names::spec_insert_all(
                    rx0,
                    spec_harvest(t0, props@.take(i as int), fuel as nat).1,
                ),
            decreases n - i,
        {
            let ghost gpre = spec_harvest(t0, props@.take(i as int), fuel as nat);
            let ghost one = spec_harvest_one(t0, props@[i as int], fuel as nat);
            let ghost gpost = spec_harvest(t0, props@.take(i + 1), fuel as nat);
            proof {
                assert(props@.take(i + 1).drop_last() =~= props@.take(i as int));
                assert(props@.take(i + 1).last() == props@[i as int]);
                assert(gpost.0 == gpre.0 + one.0);
                assert(gpost.1 == gpre.1 + one.1);
            }
            match &props[i] {
                PropOrSpread::Prop(p) => {
                    let name = match p {
                        Prop::Shorthand(id) => Some(id.clone()),
                        Prop::KeyValue { key, .. } => stringify_prop_name(key),
                        Prop::Method { key } => stringify_prop_name(key),
                        Prop::Other => None,
                    };
                    match name {
                        Some(name) => {
                            proof {
                                assert(one.0 =~= seq![name@]);
                                crate::names::lemma_insert_all_app(ex0, gpre.0, seq![name@]);
                                crate::names::lemma_insert_all_one(self.exports@, name@);
                                assert(gpre.1 + one.1 =~= gpre.1);
                            }
                            self.exports.insert(name);
                        },
                        None => {
                            proof {
                                assert(gpre.0 + one.0 =~= gpre.0);
                                assert(gpre.1 + one.1 =~= gpre.1);
                            }
                        },
                    }
                },
                PropOrSpread::Spread(e) => {
                    let se: &Expr = &**e;
                    match se {
                        Expr::Ident(_) => {
                            let ghost obj_part: (Seq<Seq<char>>, Seq<Seq<char>>) = if spec_as_obj_t(
                                t0,
                                *se,
                            ) is Some {
                                spec_harvest(
                                    t0,
                                    (spec_as_obj_t(t0, *se)->Some_0)@,
                                    f as nat,
                                )
                            } else {
                                (Seq::<Seq<char>>::empty(), Seq::<Seq<char>>::empty())
                            };
                            let ghost rx_part = spec_opt_names(spec_as_reexport_t(t0, *se));
                            proof {
                                assert(one.0 == obj_part.0);
                                assert(one.1 == obj_part.1 + rx_part);
                            }
                            match self.as_obj(se) {
                                Some(inner) => {
                                    proof {
                                        crate::names::lemma_insert_all_app(
                                            ex0,
                                            gpre.0,
                                            obj_part.0,
                                        );
                                        crate::names::lemma_insert_all_app(
                                            rx0,
                                            gpre.1,
                                            obj_part.1,
                                        );
                                    }
                                    self.use_object_as_exports(&inner, f);
                                },
                                None => {
                                    proof {
                                        assert(obj_part.0 =~= Seq::<Seq<char>>::empty());
                                        assert(gpre.0 + obj_part.0 =~= gpre.0);
                                        assert(gpre.1 + obj_part.1 =~= gpre.1);
                                    }
                                },
                            }
                            proof {
                                assert(self.exports@ == crate::names::spec_insert_all(
                                    ex0,
                                    gpre.0 + obj_part.0,
                                ));
                                assert(self.reexports@ == crate::names::spec_insert_all(
                                    rx0,
                                    gpre.1 + obj_part.1,
                                ));
                            }
                            match self.as_reexport(se) {
                                Some(reexport) => {
                                    proof {
                                        assert(rx_part =~= seq![reexport@]);
                                        crate::names::lemma_insert_all_app(
                                            rx0,
                                            gpre.1 + obj_part.1,
                                            seq![reexport@],
                                        );
                                        crate::names::lemma_insert_all_one(
                                            self.reexports@,
                                            reexport@,
                                        );
                                        assert((gpre.1 + obj_part.1) + seq![reexport@] =~= gpre.1
                                            + (obj_part.1 + rx_part));
                                    }
                                    self.reexports.insert(reexport);
                                },
                                None => {
                                    proof {
                                        assert(rx_part =~= Seq::<Seq<char>>::empty());
                                        assert(gpre.1 + obj_part.1 =~= gpre.1 + (obj_part.1
                                            + rx_part));
                                    }
                                },
                            }
                        },
                        Expr::Call(call) => {
                            match is_require_call(call) {
                                Some(reexport) => {
                                    proof {
                                        assert(one.1 =~= seq![reexport@]);
                                        assert(gpre.0 + one.0 =~= gpre.0);
                                        crate::names::lemma_insert_all_app(
                                            rx0,
                                            gpre.1,
                                            seq![reexport@],
                                        );
                                        crate::names::lemma_insert_all_one(
                                            self.reexports@,
                                            reexport@,
                                        );
                                    }
                                    self.reexports.insert(reexport);
                                },
                                None => {
                                    proof {
                                        assert(gpre.0 + one.0 =~= gpre.0);
                                        assert(gpre.1 + one.1 =~= gpre.1);
                                    }
                                },
                            }
                        },
                        _ => {
                            proof {
                                assert(gpre.0 + one.0 =~= gpre.0);
                                assert(gpre.1 + one.1 =~= gpre.1);
                            }
                        },
                    }
                },
            }
            i = i + 1;
        }
        proof {
            assert(props@.take(n as int) =~= props@);
        }
    }

    /// The reset primitive: a full replacement of the exports receiver.
    /// Clears both output collections and repopulates them from the
    /// replacement expression.
    fn reset(&mut self, expr: &Expr, fuel: u64)
        requires
            sets_ok(*old(self)),
        ensures
            sets_ok(*final(self)),
            final(self).idents == old(self).idents,
            final(self).exports_alias == old(self).exports_alias,
            final(self).node_env == old(self).node_env,
            final(self).call_mode == old(self).call_mode,
            spec_reset_effect(*old(self), *final(self), *expr, fuel as nat),
        decreases fuel, *expr,
    {
        if let Expr::Paren(inner) = expr {
            return self.reset(inner, fuel);
        }
        if fuel == 0 {
            return ;
        }
        let f: u64 = fuel - 1;
        // A replacement of the exports receiver unconditionally empties both
        // collections before the replacement is interpreted.
        self.clear();
        if let Some(reexport) = self.as_reexport(expr) {
            proof {
                assert(Seq::<Seq<char>>::empty().push(reexport@) =~= seq![reexport@]);
            }
            self.reexports.insert(reexport);
        } else if let Some(props) = self.as_obj(expr) {
            self.use_object_as_exports(&props, f);
        } else if let Some(members) = self.as_class(expr) {
            let ghost specnames = crate::matchers::spec_class_static_names(members@);
            let names = get_class_static_names(&members);
            let n = names.len();
            let mut i: usize = 0;
            proof {
                assert(specnames.take(0) =~= Seq::<Seq<char>>::empty());
            }
            while i < n
                invariant
                    self.node_env == old(self).node_env,
                    self.call_mode == old(self).call_mode,
                    n == names@.len(),
                    i <= n,
                    names@.len() == specnames.len(),
                    forall|k: int| 0 <= k < names@.len() ==> names@[k]@ == specnames[k],
                    sets_ok(*self),
                    self.idents == old(self).idents,
                    self.exports_alias == old(self).exports_alias,
                    self.node_env == old(self).node_env,
                    self.call_mode == old(self).call_mode,
                    self.reexports@ == Seq::<Seq<char>>::empty(),
                    self.exports@ == crate::names::spec_insert_all(
                        Seq::empty(),
                        specnames.take(i as int),
                    ),
                decreases n - i,
            {
                proof {
                    crate::names::lemma_insert_all_app(
                        Seq::empty(),
                        specnames.take(i as int),
                        seq![specnames[i as int]],
                    );
                    crate::names::lemma_insert_all_one(self.exports@, specnames[i as int]);
                    assert(specnames.take(i as int) + seq![specnames[i as int]] =~= specnames.take(
                        i + 1,
                    ));
                }
                self.exports.insert(names[i].clone());
                i = i + 1;
            }
            proof {
                assert(specnames.take(n as int) =~= specnames);
            }
        } else if let Some(desc) = self.as_function(expr) {
            if self.call_mode {
                let ghost mid = *self;
                self.walk_body(&desc.stmts, true, f);
                proof {
                    reset_called_fn_witness(mid, *self, desc.stmts, f as nat);
                }
            } else {
                let ghost specnames = desc.extends@.map_values(|x: String| x@);
                let n = desc.extends.len();
                let mut i: usize = 0;
                proof {
                    assert(specnames.take(0) =~= Seq::<Seq<char>>::empty());
                }
                while i < n
                    invariant
                        self.node_env == old(self).node_env,
                        self.call_mode == old(self).call_mode,
                        n == desc.extends@.len(),
                        i <= n,
                        specnames == desc.extends@.map_values(|x: String| x@),
                        sets_ok(*self),
                        self.idents == old(self).idents,
                        self.exports_alias == old(self).exports_alias,
                        self.node_env == old(self).node_env,
                        self.call_mode == old(self).call_mode,
                        self.reexports@ == Seq::<Seq<char>>::empty(),
                        self.exports@ == crate::names::spec_insert_all(
                            Seq::empty(),
                            specnames.take(i as int),
                        ),
                    decreases n - i,
                {
                    proof {
                        crate::names::lemma_insert_all_app(
                            Seq::empty(),
                            specnames.take(i as int),
                            seq![specnames[i as int]],
                        );
                        crate::names::lemma_insert_all_one(self.exports@, specnames[i as int]);
                        assert(specnames.take(i as int) + seq![specnames[i as int]]
                            =~= specnames.take(i + 1));
                    }
                    self.exports.insert(desc.extends[i].clone());
                    i = i + 1;
                }
                proof {
                    assert(specnames.take(n as int) =~= specnames);
                }
            }
        } else if let Expr::Call(call) = expr {
            if call.args.len() == 0 {
                if let Some(callee) = &call.callee {
                    if let Some(reexport) = self.as_reexport(callee) {
                        let suffixed = reexport.concat("()");
                        proof {
                            assert(Seq::<Seq<char>>::empty().push(suffixed@) =~= seq![suffixed@]);
                        }
                        self.reexports.insert(suffixed);
                    } else if let Some(desc) = self.as_function(callee) {
                        let ghost mid = *self;
                        self.walk_body(&desc.stmts, true, f);
                        proof {
                            reset_called_fn_witness(mid, *self, desc.stmts, f as nat);
                        }
                    }
                }
            }
        }
    }

    /// Interprets one plain assignment for its export effects: property
    /// assignments on the exports receiver, full replacements of
    /// `module.exports` or of an exports-aliased identifier, and the
    /// bare-export idiom.
    fn get_exports_from_assign(&mut self, assign: &AssignData, fuel: u64)
        requires
            sets_ok(*old(self)),
        ensures
            sets_ok(*final(self)),
            final(self).idents == old(self).idents,
            final(self).exports_alias == old(self).exports_alias,
            final(self).node_env == old(self).node_env,
            final(self).call_mode == old(self).call_mode,
            spec_assign_effect(*old(self), *final(self), *assign, fuel as nat),
        decreases fuel,
    {
        if fuel == 0 {
            return ;
        }
        let f: u64 = fuel - 1;
        if !assign.plain {
            return ;
        }
        match &assign.left {
            AssignTarget::Member { obj, prop } => {
                if let Some(p) = get_prop_name(prop) {
                    match &**obj {
                        Expr::Ident(o) => {
                            if self.is_exports_ident(o.as_str()) {
                                self.exports.insert(p);
                                if let Expr::Assign(dep) = &*assign.right {
                                    self.get_exports_from_assign(dep, f);
                                }
                            } else if str_eq(o.as_str(), "module") && str_eq(
                                p.as_str(),
                                "exports",
                            ) {
                                self.reset(&assign.right, f);
                            }
                        },
                        Expr::Member { .. } => {
                            if is_member(obj, "module", "exports") {
                                self.exports.insert(p);
                            }
                        },
                        _ => {},
                    }
                }
            },
            AssignTarget::Ident(id) => {
                if self.is_exports_ident(id.as_str()) {
                    self.reset(&assign.right, f);
                } else {
                    if let Some(bare) = self.get_bare_export_names(&assign.right) {
                        self.exports.insert(bare);
                    }
                }
            },
            _ => {
                if let Some(bare) = self.get_bare_export_names(&assign.right) {
                    self.exports.insert(bare);
                }
            },
        }
    }

    /// The marking effect of an expression statement: assignments update the
    /// binding table, extending object shapes and function statics.
    fn mark_expr(&mut self, expr: &Expr)
        ensures
            final(self).node_env == old(self).node_env,
            final(self).call_mode == old(self).call_mode,
            final(self).exports@ == old(self).exports@,
            final(self).reexports@ == old(self).reexports@,
            final(self).exports_alias@ == old(self).exports_alias@,
            final(self).fn_returned == old(self).fn_returned,
            match spec_mark_expr_target(*old(self), *expr) {
                Some(nm) => spec_mark_expr_effect(
                    *old(self),
                    *expr,
                    spec_lookup(final(self).idents@, nm),
                ),
                None => final(self).idents@ == old(self).idents@,
            },
            forall|n: Seq<char>|
                spec_mark_expr_target(*old(self), *expr) != Some(n) ==> spec_lookup(
                    final(self).idents@,
                    n,
                ) == spec_lookup(old(self).idents@, n),
    {
        if let Expr::Assign(assign) = expr {
            if assign.plain {
                match &assign.left {
                    AssignTarget::Ident(id) => {
                        if self.idents.contains(id.as_str()) {
                            self.mark_ident(id.as_str(), &assign.right);
                        }
                    },
                    AssignTarget::Member { obj, prop } => {
                        if let Some(key) = get_prop_name(prop) {
                            if let Expr::Ident(obj_id) = &**obj {
                                if let Some(props) = self.as_obj(obj) {
                                    let ghost props0 = props@;
                                    let mut extended = clone_props(&props);
                                    extended.push(
                                        PropOrSpread::Prop(
                                            Prop::KeyValue {
                                                key: PropName::Ident(key),
                                                value: Rc::new(Expr::Lit(Lit::Bool(true))),
                                            },
                                        ),
                                    );
                                    proof {
                                        assert(extended@.subrange(0, props0.len() as int)
                                            =~= props0);
                                    }
                                    self.idents.store(
                                        obj_id.as_str(),
                                        Rc::new(IdentKind::Object(Rc::new(extended))),
                                    );
                                } else if let Some(desc) = self.as_function(obj) {
                                    let ghost ext0 = desc.extends@;
                                    let mut desc = desc;
                                    desc.extends.push(key);
                                    proof {
                                        assert(desc.extends@.subrange(0, ext0.len() as int)
                                            =~= ext0);
                                    }
                                    self.idents.store(obj_id.as_str(), Rc::new(IdentKind::Fn(desc)));
                                }
                            }
                        }
                    },
                    _ => {},
                }
            }
        }
    }

    /// The marking pass over one statement: populates the binding table and
    /// the exports-alias set, and reports whether a `return` was reached.
    fn mark_stmt(&mut self, stmt: &Stmt, fuel: u64) -> (returned: bool)
        ensures
            final(self).node_env == old(self).node_env,
            final(self).call_mode == old(self).call_mode,
            final(self).exports@ == old(self).exports@,
            final(self).reexports@ == old(self).reexports@,
            final(self).fn_returned == old(self).fn_returned,
            match spec_mark_returned(*old(self), *stmt, fuel as nat) {
                Some(b) => returned == b,
                None => true,
            },
            spec_mark_step(*old(self), *final(self), *stmt, fuel as nat),
        decreases fuel,
    {
        if fuel == 0 {
            return false;
        }
        let f: u64 = fuel - 1;
        match stmt {
            Stmt::Decl(decl) => {
                match decl {
                    Decl::Var(decls) => {
                        let n = decls.len();
                        let mut i: usize = 0;
                        while i < n
                            invariant
                                self.node_env == old(self).node_env,
                                self.call_mode == old(self).call_mode,
                                f < fuel,
                                n == decls@.len(),
                                i <= n,
                                self.exports@ == old(self).exports@,
                                self.reexports@ == old(self).reexports@,
                                self.fn_returned == old(self).fn_returned,
                                spec_mark_decl_chain(*old(self), *self, decls@, i as int),
                            decreases n - i,
                        {
                            let ghost prev = *self;
                            let d = &decls[i];
                            match &d.name {
                                Pat::Ident(id) => {
                                    self.try_to_mark_exports_alias(d);
                                    if let Some(init) = &d.init {
                                        self.mark_ident(id.as_str(), init);
                                    } else {
                                        self.idents.store(id.as_str(), Rc::new(IdentKind::Unknown));
                                    }
                                },
                                Pat::Object(props) => {
                                    // An alias can only be proven for an identifier
                                    // pattern, so no alias probe is needed here.
                                    let mut process_env_init = false;
                                    if let Some(init) = &d.init {
                                        process_env_init = is_member(init, "process", "env");
                                    }
                                    if process_env_init {
                                        self.mark_env_destructure(props);
                                    }
                                },
                                Pat::Other => {},
                            }
                            proof {
                                let ii: int = i as int;
                                assert(decls@[ii + 1 - 1] == decls@[ii]);
                                assert(spec_mark_decl_step(prev, *self, decls@[ii + 1 - 1]));
                                assert(spec_mark_decl_chain(*old(self), prev, decls@, ii + 1 - 1));
                                assert(spec_mark_decl_chain(*old(self), *self, decls@, ii + 1));
                            }
                            i = i + 1;
                        }
                        false
                    },
                    Decl::Fn { name, body, .. } => {
                        if let Some(b) = body {
                            self.idents.store(
                                name.as_str(),
                                Rc::new(
                                    IdentKind::Fn(FnDesc { stmts: b.clone(), extends: Vec::new() }),
                                ),
                            );
                        }
                        false
                    },
                    Decl::Class { name, members } => {
                        self.idents.store(
                            name.as_str(),
                            Rc::new(IdentKind::Class(members.clone())),
                        );
                        false
                    },
                    Decl::Other => false,
                }
            },
            Stmt::Expr(e) => {
                self.mark_expr(e);
                false
            },
            Stmt::Block(stmts) => {
                let n = stmts.len();
                let mut i: usize = 0;
                while i < n
                    invariant
                        self.node_env == old(self).node_env,
                        self.call_mode == old(self).call_mode,
                        f < fuel,
                        n == stmts@.len(),
                        i <= n,
                        (*stmt) matches Stmt::Block(_),
                        self.exports@ == old(self).exports@,
                        self.reexports@ == old(self).reexports@,
                        self.fn_returned == old(self).fn_returned,
                    decreases n - i,
                {
                    if self.mark_stmt(&stmts[i], f) {
                        return true;
                    }
                    i = i + 1;
                }
                false
            },
            Stmt::If { test, cons, alt } => {
                if self.is_true(test) {
                    self.mark_stmt(cons, f)
                } else if let Some(a) = alt {
                    self.mark_stmt(a, f)
                } else {
                    false
                }
            },
            Stmt::Return(_) => true,
            Stmt::Other => false,
        }
    }

    /// Binds the names of a `const { NODE_ENV } = process.env` destructuring
    /// (plain or renamed) to the environment sentinel.
    fn mark_env_destructure(&mut self, props: &Vec<ObjectPatProp>)
        ensures
            final(self).node_env == old(self).node_env,
            final(self).call_mode == old(self).call_mode,
            final(self).exports@ == old(self).exports@,
            final(self).reexports@ == old(self).reexports@,
            final(self).exports_alias@ == old(self).exports_alias@,
            final(self).fn_returned == old(self).fn_returned,
            spec_env_destructure_chain(*old(self), *final(self), props@, props@.len() as int),
    {
        let n = props.len();
        let mut i: usize = 0;
        while i < n
            invariant
                self.node_env == old(self).node_env,
                self.call_mode == old(self).call_mode,
                n == props@.len(),
                i <= n,
                self.exports@ == old(self).exports@,
                self.reexports@ == old(self).reexports@,
                self.exports_alias@ == old(self).exports_alias@,
                self.fn_returned == old(self).fn_returned,
                spec_env_destructure_chain(*old(self), *self, props@, i as int),
            decreases n - i,
        {
            let ghost prev = *self;
            match &props[i] {
                ObjectPatProp::Assign { key } => {
                    if str_eq(key.as_str(), "NODE_ENV") {
                        let env = self.node_env.clone();
                        self.idents.store(key.as_str(), Rc::new(IdentKind::Lit(Lit::Str(env))));
                    }
                },
                ObjectPatProp::KeyValue { key, value_ident: Some(rename) } => {
                    if let Some(k) = stringify_prop_name(key) {
                        if str_eq(k.as_str(), "NODE_ENV") {
                            let env = self.node_env.clone();
                            self.idents.store(
                                rename.as_str(),
                                Rc::new(IdentKind::Lit(Lit::Str(env))),
                            );
                        }
                    }
                },
                _ => {},
            }
            proof {
                let ii: int = i as int;
                assert(props@[ii + 1 - 1] == props@[ii]);
                assert(spec_env_prop_step(prev, *self, props@[ii + 1 - 1]));
                assert(spec_env_destructure_chain(*old(self), prev, props@, ii + 1 - 1));
                assert(spec_env_destructure_chain(*old(self), *self, props@, ii + 1));
            }
            i = i + 1;
        }
    }

    /// Recognizes a UMD factory call: two arguments whose callee is either
    /// the literal `(global, factory)` wrapper or a function opening with
    /// the canonical runtime dispatch. Returns the factory body to walk;
    /// for the dispatch form the wrapper's first parameter is recorded as an
    /// exports alias.
    fn is_umd_iife_call(&mut self, call: &CallData) -> (r: Option<Rc<Vec<Stmt>>>)
        ensures
            final(self).node_env == old(self).node_env,
            final(self).call_mode == old(self).call_mode,
            final(self).exports@ == old(self).exports@,
            final(self).reexports@ == old(self).reexports@,
            final(self).fn_returned == old(self).fn_returned,
            final(self).idents == old(self).idents,
            r == spec_umd_factory_body(*call),
            match spec_umd_promoted_alias(*call) {
                Some(nm) => final(self).exports_alias@ == crate::names::spec_insert(
                    old(self).exports_alias@,
                    nm,
                ),
                None => final(self).exports_alias@ == old(self).exports_alias@,
            },
    {
        if call.args.len() != 2 {
            return None;
        }
        let mut arg1: &Expr = &call.args[1].expr;
        if let Expr::Paren(inner) = arg1 {
            arg1 = inner;
        }
        let stmts: Option<Rc<Vec<Stmt>>> = match arg1 {
            Expr::Fn(f) => {
                match &f.body {
                    Some(b) => Some(b.clone()),
                    None => None,
                }
            },
            Expr::Arrow(a) => Some(a.body.clone()),
            _ => None,
        };
        let callee: &Expr = match &call.callee {
            Some(c) => c,
            None => {
                return None;
            },
        };
        let callee: &Expr = if let Expr::Paren(inner) = callee {
            inner
        } else {
            callee
        };
        match callee {
            Expr::Fn(f) => {
                if is_umd_params(&f.params) {
                    return stmts;
                } else if let Some(body) = &f.body {
                    if is_umd_checks(body) {
                        if f.params.len() > 0 {
                            if let Pat::Ident(sym) = &f.params[0] {
                                self.exports_alias.insert(sym.clone());
                            }
                        }
                        return stmts;
                    }
                    return None;
                }
            },
            Expr::Arrow(a) => {
                if is_umd_params(&a.params) {
                    return stmts;
                }
            },
            _ => {},
        }
        None
    }

    /// Expression-statement dispatch: the matcher table over the recognized
    /// export idioms, applied to one expression (and element-wise to comma
    /// expressions).
    fn parse_expr(&mut self, expr: &Expr, fuel: u64)
        requires
            sets_ok(*old(self)),
        ensures
            final(self).node_env == old(self).node_env,
            final(self).call_mode == old(self).call_mode,
            sets_ok(*final(self)),
            spec_parse_effect(*old(self), *final(self), *expr, fuel as nat),
            fuel != 0 ==> ((*expr) matches Expr::Comma(exprs) ==> spec_parse_chain(
                *old(self),
                *final(self),
                exprs@,
                exprs@.len() as int,
                (fuel - 1) as nat,
            )),
            fuel != 0 ==> ((*expr) matches Expr::Paren(inner) ==> exists|lmid: CJSLexer|
                {
                    &&& lmid.exports@ == old(self).exports@
                    &&& lmid.reexports@ == old(self).reexports@
                    &&& #[trigger] spec_parse_effect(lmid, *final(self), *inner, (
                    fuel - 1) as nat)
                }),
        decreases fuel,
    {
        if fuel == 0 {
            return ;
        }
        let f: u64 = fuel - 1;
        match expr {
            Expr::Comma(exprs) => {
                let ghost lc = *self;
                let n = exprs.len();
                let mut i: usize = 0;
                while i < n
                    invariant
                        self.node_env == old(self).node_env,
                        self.call_mode == old(self).call_mode,
                        f == fuel - 1,
                        n == exprs@.len(),
                        i <= n,
                        sets_ok(*self),
                        spec_parse_chain(lc, *self, exprs@, i as int, f as nat),
                    decreases n - i,
                {
                    let ghost prev = *self;
                    self.parse_expr(&exprs[i], f);
                    proof {
                        let ii: int = i as int;
                        assert(exprs@[ii + 1 - 1] == exprs@[ii]);
                        assert(spec_parse_effect(prev, *self, exprs@[ii + 1 - 1], f as nat));
                        assert(spec_parse_chain(lc, prev, exprs@, ii + 1 - 1, f as nat));
                        assert(spec_parse_chain(lc, *self, exprs@, ii + 1, f as nat));
                    }
                    i = i + 1;
                }
                proof {
                    assert(f as nat == (fuel - 1) as nat);
                    assert(spec_parse_chain(lc, *self, exprs@, exprs@.len() as int, (
                    fuel - 1) as nat));
                }
            },
            Expr::Assign(assign) => {
                self.get_exports_from_assign(assign, f);
            },
            Expr::Call(call) => {
                self.parse_call(call, f);
            },
            Expr::Unary { op, arg } => {
                let hoists = match op {
                    crate::ast::UnOp::Minus => true,
                    crate::ast::UnOp::Plus => true,
                    crate::ast::UnOp::Bang => true,
                    crate::ast::UnOp::Tilde => true,
                    crate::ast::UnOp::Void => true,
                    _ => false,
                };
                if hoists {
                    if let Expr::Call(call) = &**arg {
                        if let Some(body) = self.is_umd_iife_call(call) {
                            self.walk_body(&body, false, f);
                        } else if let Some(body) = is_iife_call(call) {
                            self.harvest_bare_export_args(call);
                            self.walk_body(&body, false, f);
                        }
                    }
                }
            },
            Expr::Paren(inner) => {
                self.mark_expr(inner);
                let ghost lp = *self;
                self.parse_expr(inner, f);
                proof {
                    assert(f as nat == (fuel - 1) as nat);
                    assert(spec_parse_effect(lp, *self, *(*inner), (fuel - 1) as nat));
                }
            },
            Expr::Bin { op: BinOp::And, right, .. } => {
                // The dead-branch telegraph `0 && (module.exports = ...)`:
                // the assignment is interpreted anyway.
                if let Expr::Assign(assign) = &**right {
                    self.get_exports_from_assign(assign, f);
                } else if let Expr::Paren(p) = &**right {
                    if let Expr::Assign(assign) = &**p {
                        self.get_exports_from_assign(assign, f);
                    }
                }
            },
            _ => {},
        }
    }

    /// The call-shaped rows of the matcher table: `Object.defineProperty`,
    /// `Object.assign`, the star-reexport helpers, and immediately-invoked
    /// functions.
    fn parse_call(&mut self, call: &CallData, fuel: u64)
        requires
            sets_ok(*old(self)),
        ensures
            final(self).node_env == old(self).node_env,
            final(self).call_mode == old(self).call_mode,
            sets_ok(*final(self)),
            final(self).idents == old(self).idents,
            final(self).exports_alias@ == spec_call_alias_after(
                old(self).exports_alias@,
                *call,
                fuel as nat,
            ),
            (fuel != 0 && spec_dp_shape(*call)) ==> spec_dp_effect(
                *old(self),
                *final(self),
                *call,
                fuel as nat,
            ),
            (fuel != 0 && !spec_dp_shape(*call) && spec_oa_shape(*call)) ==> spec_oa_chain(
                *old(self),
                *final(self),
                call.args@,
                call.args@.len() as int,
                spec_is_module_ident(*call.args[0].expr),
                spec_is_exports_expr_a(old(self).exports_alias@, *call.args[0].expr),
                (fuel - 1) as nat,
            ),
            (fuel != 0 && !spec_dp_shape(*call) && !spec_oa_shape(*call)
                && crate::matchers::spec_is_export_star_call(*call) && call.args.len() >= 2)
                ==> if spec_is_exports_expr_a(old(self).exports_alias@, *call.args[1].expr) {
                spec_star_effect(*old(self), *final(self), *call.args[0].expr, fuel as nat)
            } else {
                final(self).exports@ == old(self).exports@ && final(self).reexports@ == old(
                    self,
                ).reexports@
            },
            (fuel != 0 && !spec_dp_shape(*call) && !spec_oa_shape(*call) && !(
            crate::matchers::spec_is_export_star_call(*call) && call.args.len() >= 2) && (
            call.callee matches Some(ce) && (*ce) matches Expr::Ident(nm) && nm@ == "__export"@)
                && call.args.len() > 0) ==> spec_star_effect(
                *old(self),
                *final(self),
                *call.args[0].expr,
                fuel as nat,
            ),
            (fuel >= 3 && spec_no_call_row_before_iife(*call) && spec_umd_factory_body(*call)
                is Some) ==> exists|lmu: CJSLexer, l1u: CJSLexer|
                {
                    &&& lmu.exports@ == old(self).exports@
                    &&& lmu.reexports@ == old(self).reexports@
                    &&& #[trigger] spec_export_chain(
                        lmu,
                        l1u,
                        (spec_umd_factory_body(*call)->Some_0)@,
                        (spec_umd_factory_body(*call)->Some_0)@.len() as int,
                        (fuel - 3) as nat,
                    )
                    &&& final(self).exports@ == l1u.exports@
                    &&& final(self).reexports@ == l1u.reexports@
                },
            (fuel >= 3 && spec_no_call_row_before_iife(*call) && spec_umd_factory_body(*call)
                is None && crate::matchers::spec_iife_body(*call) is Some) ==> exists|
                lm: CJSLexer,
                l1: CJSLexer,
            |
                {
                    &&& lm.exports@ == crate::names::spec_insert_all(
                        old(self).exports@,
                        spec_bare_args(
                            match spec_umd_promoted_alias(*call) {
                                Some(nm) => crate::names::spec_insert(
                                    old(self).exports_alias@,
                                    nm,
                                ),
                                None => old(self).exports_alias@,
                            },
                            call.args@,
                        ),
                    )
                    &&& lm.reexports@ == old(self).reexports@
                    &&& #[trigger] spec_export_chain(
                        lm,
                        l1,
                        (crate::matchers::spec_iife_body(*call)->Some_0)@,
                        (crate::matchers::spec_iife_body(*call)->Some_0)@.len() as int,
                        (fuel - 3) as nat,
                    )
                    &&& final(self).exports@ == l1.exports@
                    &&& final(self).reexports@ == l1.reexports@
                },
        decreases fuel,
    {
        if fuel == 0 {
            return ;
        }
        let f: u64 = fuel - 1;
        if is_object_static_method_call(call, "defineProperty") && call.args.len() >= 3 {
            let ghost scan_full = match spec_as_obj_t(
                old(self).idents@,
                *call.args[2].expr,
            ) {
                Some(props) => spec_dp_scan(props@, 0, None),
                None => (false, None),
            };
            let is_module = is_module_ident(&call.args[0].expr);
            let is_exports = self.is_exports_expr(&call.args[0].expr);
            let name = self.as_str(&call.args[1].expr);
            let mut with_value_or_getter = false;
            let mut with_value: Option<Rc<Expr>> = None;
            match self.as_obj(&call.args[2].expr) {
                Some(props) => {
                    let n = props.len();
                    let mut i: usize = 0;
                    while i < n
                        invariant_except_break
                            !with_value_or_getter,
                            scan_full == spec_dp_scan(props@, i as int, with_value),
                        invariant
                            self.idents == old(self).idents,
                            self.exports_alias == old(self).exports_alias,
                            self.node_env == old(self).node_env,
                            self.call_mode == old(self).call_mode,
                            f < fuel,
                            n == props@.len(),
                            i <= n,
                            sets_ok(*self),
                            scan_full == spec_dp_scan(props@, 0, None),
                        ensures
                            scan_full == (with_value_or_getter, with_value),
                        decreases n - i,
                    {
                        let ghost wv0 = with_value;
                        if let PropOrSpread::Prop(p) = &props[i] {
                            let key = match p {
                                Prop::KeyValue { key, value } => {
                                    let k = stringify_prop_name(key);
                                    if let Some(kk) = &k {
                                        if str_eq(kk.as_str(), "value") {
                                            with_value = Some(value.clone());
                                        }
                                    }
                                    k
                                },
                                Prop::Method { key } => stringify_prop_name(key),
                                _ => None,
                            };
                            if let Some(k) = key {
                                if str_eq(k.as_str(), "value") || str_eq(k.as_str(), "get") {
                                    with_value_or_getter = true;
                                    proof {
                                        assert(spec_dp_scan(props@, i as int, wv0) == (
                                        true,
                                        with_value,
                                        ));
                                    }
                                    break ;
                                }
                            }
                        }
                        proof {
                            assert(spec_dp_scan(props@, i as int, wv0) == spec_dp_scan(
                                props@,
                                i + 1,
                                with_value,
                            ));
                        }
                        i = i + 1;
                    }
                    proof {
                        assert(scan_full == (with_value_or_getter, with_value));
                    }
                },
                None => {
                    proof {
                        assert(scan_full == (with_value_or_getter, with_value));
                    }
                },
            }
            let key_is_exports = match &name {
                Some(n) => str_eq(n.as_str(), "exports"),
                None => false,
            };
            if is_exports && with_value_or_getter {
                if let Some(name) = name {
                    self.exports.insert(name);
                }
            }
            if is_module && key_is_exports {
                if let Some(v) = with_value {
                    self.reset(&v, f);
                }
            }
        } else if is_object_static_method_call(call, "assign") && call.args.len() >= 2 {
            let is_module = is_module_ident(&call.args[0].expr);
            let is_exports = self.is_exports_expr(&call.args[0].expr);
            let n = call.args.len();
            let mut i: usize = 1;
            while i < n
                invariant
                    self.idents == old(self).idents,
                    self.exports_alias == old(self).exports_alias,
                    self.node_env == old(self).node_env,
                    self.call_mode == old(self).call_mode,
                    f == fuel - 1,
                    n == call.args@.len(),
                    1 <= i <= n,
                    sets_ok(*self),
                    is_module == spec_is_module_ident(*call.args@[0].expr),
                    is_exports == spec_is_exports_expr_a(
                        old(self).exports_alias@,
                        *call.args@[0].expr,
                    ),
                    self.idents == old(self).idents,
                    self.exports_alias == old(self).exports_alias,
                    spec_oa_chain(
                        *old(self),
                        *self,
                        call.args@,
                        i as int,
                        is_module,
                        is_exports,
                        f as nat,
                    ),
                decreases n - i,
            {
                let ghost prev = *self;
                let arg = &call.args[i];
                match self.as_obj(&arg.expr) {
                    Some(props) => {
                        if is_module {
                            let mut with_exports: Option<Rc<Expr>> = None;
                            let m = props.len();
                            let mut j: usize = 0;
                            while j < m
                                invariant_except_break
                                    with_exports is None,
                                    spec_oa_first_exports(props@, 0) == spec_oa_first_exports(
                                        props@,
                                        j as int,
                                    ),
                                invariant
                                    self.idents == old(self).idents,
                                    self.exports_alias == old(self).exports_alias,
                                    self.node_env == old(self).node_env,
                                    self.call_mode == old(self).call_mode,
                                    m == props@.len(),
                                    j <= m,
                                ensures
                                    spec_oa_first_exports(props@, 0) == with_exports,
                                decreases m - j,
                            {
                                if let PropOrSpread::Prop(Prop::KeyValue { key, value }) = &props[j]
                                {
                                    if let Some(k) = stringify_prop_name(key) {
                                        if str_eq(k.as_str(), "exports") {
                                            with_exports = Some(value.clone());
                                            proof {
                                                assert(spec_oa_first_exports(props@, j as int)
                                                    == with_exports);
                                            }
                                            break ;
                                        }
                                    }
                                }
                                proof {
                                    assert(spec_oa_first_exports(props@, j as int)
                                        == spec_oa_first_exports(props@, j + 1));
                                }
                                j = j + 1;
                            }
                            match with_exports {
                                Some(e) => {
                                    self.reset(&e, f);
                                },
                                None => {},
                            }
                        } else if is_exports {
                            self.use_object_as_exports(&props, f);
                        }
                    },
                    None => {
                        match self.as_reexport(&arg.expr) {
                            Some(reexport) => {
                                if is_exports {
                                    self.reexports.insert(reexport);
                                }
                            },
                            None => {},
                        }
                    },
                }
                proof {
                    let ii: int = i as int;
                    assert(spec_oa_step(prev, *self, *call.args@[ii].expr, is_module, is_exports, f as nat));
                    assert(call.args@[ii + 1 - 1] == call.args@[ii]);
                    assert(spec_oa_step(
                        prev,
                        *self,
                        *call.args@[ii + 1 - 1].expr,
                        is_module,
                        is_exports,
                        f as nat,
                    ));
                    assert(spec_oa_chain(
                        *old(self),
                        prev,
                        call.args@,
                        ii + 1 - 1,
                        is_module,
                        is_exports,
                        f as nat,
                    ));
                    assert(spec_oa_chain(
                        *old(self),
                        *self,
                        call.args@,
                        ii + 1,
                        is_module,
                        is_exports,
                        f as nat,
                    ));
                }
                i = i + 1;
            }
            proof {
                assert(f as nat == (fuel - 1) as nat);
                assert(spec_oa_chain(
                    *old(self),
                    *self,
                    call.args@,
                    call.args@.len() as int,
                    is_module,
                    is_exports,
                    (fuel - 1) as nat,
                ));
            }
        } else if is_tslib_export_star_call(call) && call.args.len() >= 2 {
            let is_exports = self.is_exports_expr(&call.args[1].expr);
            if is_exports {
                if let Some(props) = self.as_obj(&call.args[0].expr) {
                    self.use_object_as_exports(&props, f);
                } else if let Some(reexport) = self.as_reexport(&call.args[0].expr) {
                    self.reexports.insert(reexport);
                }
            }
        } else if is_export_call(call) && call.args.len() > 0 {
            if let Some(props) = self.as_obj(&call.args[0].expr) {
                self.use_object_as_exports(&props, f);
            } else if let Some(reexport) = self.as_reexport(&call.args[0].expr) {
                self.reexports.insert(reexport);
            }
        } else if let Some(body) = self.is_umd_iife_call(call) {
            let ghost midu = *self;
            self.walk_body(&body, false, f);
            proof {
                if fuel >= 3 {
                    let finu = *self;
                    let w = choose|lm: CJSLexer, l1: CJSLexer|
                        lm.exports@ == midu.exports@ && lm.reexports@ == midu.reexports@
                            && #[trigger] spec_export_chain(
                            lm,
                            l1,
                            body@,
                            body@.len() as int,
                            (f - 2) as nat,
                        ) && finu.exports@ == l1.exports@ && finu.reexports@ == l1.reexports@;
                    assert((f - 2) as nat == (fuel - 3) as nat);
                    assert(spec_export_chain(
                        w.0,
                        w.1,
                        body@,
                        body@.len() as int,
                        (fuel - 3) as nat,
                    ));
                }
            }
        } else if let Some(body) = is_iife_call(call) {
            self.harvest_bare_export_args(call);
            let ghost mid = *self;
            self.walk_body(&body, false, f);
            proof {
                if fuel >= 3 {
                    let fin = *self;
                    let lm0 = choose|lm: CJSLexer, l1: CJSLexer|
                        lm.exports@ == mid.exports@ && lm.reexports@ == mid.reexports@
                            && #[trigger] spec_export_chain(
                            lm,
                            l1,
                            body@,
                            body@.len() as int,
                            (f - 2) as nat,
                        ) && fin.exports@ == l1.exports@ && fin.reexports@ == l1.reexports@;
                    assert((f - 2) as nat == (fuel - 3) as nat);
                    assert(spec_export_chain(
                        lm0.0,
                        lm0.1,
                        body@,
                        body@.len() as int,
                        (fuel - 3) as nat,
                    ));
                }
            }
        }
    }

    /// Tests every non-spread argument of an immediately-invoked function
    /// for the bare-export idiom and harvests the names.
    fn harvest_bare_export_args(&mut self, call: &CallData)
        requires
            sets_ok(*old(self)),
        ensures
            final(self).node_env == old(self).node_env,
            final(self).call_mode == old(self).call_mode,
            sets_ok(*final(self)),
            final(self).idents == old(self).idents,
            final(self).exports_alias == old(self).exports_alias,
            final(self).fn_returned == old(self).fn_returned,
            final(self).reexports@ == old(self).reexports@,
            final(self).exports@ == crate::names::spec_insert_all(
                old(self).exports@,
                spec_bare_args(old(self).exports_alias@, call.args@),
            ),
    {
        let ghost alias0 = self.exports_alias@;
        let ghost ex0 = self.exports@;
        let n = call.args.len();
        let mut i: usize = 0;
        proof {
            assert(call.args@.take(0) =~= Seq::<ExprOrSpread>::empty());
        }
        while i < n
            invariant
                self.node_env == old(self).node_env,
                self.call_mode == old(self).call_mode,
                n == call.args@.len(),
                i <= n,
                sets_ok(*self),
                self.idents == old(self).idents,
                self.exports_alias == old(self).exports_alias,
                self.fn_returned == old(self).fn_returned,
                self.reexports@ == old(self).reexports@,
                alias0 == self.exports_alias@,
                ex0 == old(self).exports@,
                self.exports@ == crate::names::spec_insert_all(
                    ex0,
                    spec_bare_args(alias0, call.args@.take(i as int)),
                ),
            decreases n - i,
        {
            let ghost bpre = spec_bare_args(alias0, call.args@.take(i as int));
            proof {
                assert(call.args@.take(i + 1).drop_last() =~= call.args@.take(i as int));
                assert(call.args@.take(i + 1).last() == call.args@[i as int]);
            }
            let arg = &call.args[i];
            if !arg.spread {
                match self.get_bare_export_names(&arg.expr) {
                    Some(bare) => {
                        proof {
                            crate::names::lemma_insert_all_app(ex0, bpre, seq![bare@]);
                            crate::names::lemma_insert_all_one(self.exports@, bare@);
                        }
                        self.exports.insert(bare);
                    },
                    None => {
                        proof {
                            assert(bpre + Seq::<Seq<char>>::empty() =~= bpre);
                        }
                    },
                }
            } else {
                proof {
                    assert(bpre + Seq::<Seq<char>>::empty() =~= bpre);
                }
            }
            i = i + 1;
        }
        proof {
            assert(call.args@.take(n as int) =~= call.args@);
        }
    }

    /// Walks a nested body on a copy of the frame; the nested walk's output
    /// collections and returned flag flow back, the binding table does not.
    fn walk_body(&mut self, stmts: &Vec<Stmt>, as_fn: bool, fuel: u64)
        requires
            sets_ok(*old(self)),
        ensures
            sets_ok(*final(self)),
            final(self).idents == old(self).idents,
            final(self).exports_alias == old(self).exports_alias,
            final(self).node_env == old(self).node_env,
            final(self).call_mode == old(self).call_mode,
            fuel < 2 ==> final(self).exports@ == old(self).exports@ && final(self).reexports@
                == old(self).reexports@,
            (!as_fn && fuel >= 2) ==> exists|c0: CJSLexer, lm: CJSLexer, l1: CJSLexer, kk: int|
                #![trigger spec_mark_chain(c0, lm, stmts@, kk, (fuel - 2) as nat),
                    spec_export_chain(lm, l1, stmts@, stmts@.len() as int, (fuel - 2) as nat)]
                {
                    &&& c0.idents@ == old(self).idents@
                    &&& c0.exports_alias@ == old(self).exports_alias@
                    &&& c0.exports@ == old(self).exports@
                    &&& c0.reexports@ == old(self).reexports@
                    &&& c0.node_env == old(self).node_env
                    &&& !c0.call_mode
                    &&& !c0.fn_returned
                    &&& lm.exports@ == old(self).exports@
                    &&& lm.reexports@ == old(self).reexports@
                    &&& lm.node_env == old(self).node_env
                    &&& !lm.call_mode
                    &&& !lm.fn_returned
                    &&& 0 <= kk <= stmts@.len()
                    &&& spec_mark_chain(c0, lm, stmts@, kk, (fuel - 2) as nat)
                    &&& spec_export_chain(lm, l1, stmts@, stmts@.len() as int, (fuel - 2) as nat)
                    &&& final(self).exports@ == l1.exports@
                    &&& final(self).reexports@ == l1.reexports@
                },
            (as_fn && fuel >= 2) ==> exists|
                c0: CJSLexer,
                lm: CJSLexer,
                cf: CJSLexer,
                k: int,
                kk: int,
            |
                #![trigger spec_mark_chain(c0, lm, stmts@, kk, (fuel - 2) as nat),
                    spec_export_chain_fn(lm, cf, stmts@, k, (fuel - 2) as nat)]
                {
                    &&& c0.idents@ == old(self).idents@
                    &&& c0.exports_alias@ == old(self).exports_alias@
                    &&& c0.exports@ == old(self).exports@
                    &&& c0.reexports@ == old(self).reexports@
                    &&& c0.node_env == old(self).node_env
                    &&& !c0.call_mode
                    &&& !c0.fn_returned
                    &&& lm.exports@ == old(self).exports@
                    &&& lm.reexports@ == old(self).reexports@
                    &&& lm.node_env == old(self).node_env
                    &&& !lm.call_mode
                    &&& !lm.fn_returned
                    &&& 0 <= kk <= stmts@.len()
                    &&& spec_mark_chain(c0, lm, stmts@, kk, (fuel - 2) as nat)
                    &&& 0 <= k <= stmts@.len()
                    &&& spec_export_chain_fn(lm, cf, stmts@, k, (fuel - 2) as nat)
                    &&& k < stmts@.len() ==> cf.fn_returned
                    &&& final(self).exports@ == cf.exports@
                    &&& final(self).reexports@ == cf.reexports@
                    &&& final(self).fn_returned == cf.fn_returned
                },
        decreases fuel,
    {
        if fuel == 0 {
            return ;
        }
        let f: u64 = fuel - 1;
        let mut child = CJSLexer {
            node_env: self.node_env.clone(),
            call_mode: false,
            fn_returned: false,
            exports_alias: self.exports_alias.duplicate(),
            idents: self.idents.duplicate(),
            exports: self.exports.duplicate(),
            reexports: self.reexports.duplicate(),
        };
        let ghost c0v = child;
        child.walk(stmts, as_fn, f);
        proof {
            if fuel >= 2 {
                let cfv = child;
                if !as_fn {
                    let lm0 = choose|lm: CJSLexer|
                        {
                            &&& lm.exports@ == c0v.exports@
                            &&& lm.reexports@ == c0v.reexports@
                            &&& lm.node_env == c0v.node_env
                            &&& lm.call_mode == c0v.call_mode
                            &&& lm.fn_returned == c0v.fn_returned
                            &&& exists|kk: int|
                                0 <= kk <= stmts@.len() && #[trigger] spec_mark_chain(
                                    c0v,
                                    lm,
                                    stmts@,
                                    kk,
                                    (f - 1) as nat,
                                )
                            &&& #[trigger] spec_export_chain(
                                lm,
                                cfv,
                                stmts@,
                                stmts@.len() as int,
                                (f - 1) as nat,
                            )
                        };
                    let kk0 = choose|kk: int|
                        0 <= kk <= stmts@.len() && #[trigger] spec_mark_chain(
                            c0v,
                            lm0,
                            stmts@,
                            kk,
                            (f - 1) as nat,
                        );
                    assert((f - 1) as nat == (fuel - 2) as nat);
                    assert(spec_mark_chain(c0v, lm0, stmts@, kk0, (fuel - 2) as nat));
                    assert(spec_export_chain(
                        lm0,
                        cfv,
                        stmts@,
                        stmts@.len() as int,
                        (fuel - 2) as nat,
                    ));
                } else {
                    let w = choose|lm: CJSLexer, k: int|
                        {
                            &&& 0 <= k <= stmts@.len()
                            &&& lm.exports@ == c0v.exports@
                            &&& lm.reexports@ == c0v.reexports@
                            &&& lm.node_env == c0v.node_env
                            &&& lm.call_mode == c0v.call_mode
                            &&& lm.fn_returned == c0v.fn_returned
                            &&& exists|kk: int|
                                0 <= kk <= stmts@.len() && #[trigger] spec_mark_chain(
                                    c0v,
                                    lm,
                                    stmts@,
                                    kk,
                                    (f - 1) as nat,
                                )
                            &&& #[trigger] spec_export_chain_fn(lm, cfv, stmts@, k, (
                            f - 1) as nat)
                            &&& k < stmts@.len() ==> cfv.fn_returned
                        };
                    let kk0 = choose|kk: int|
                        0 <= kk <= stmts@.len() && #[trigger] spec_mark_chain(
                            c0v,
                            w.0,
                            stmts@,
                            kk,
                            (f - 1) as nat,
                        );
                    assert((f - 1) as nat == (fuel - 2) as nat);
                    assert(spec_mark_chain(c0v, w.0, stmts@, kk0, (fuel - 2) as nat));
                    assert(spec_export_chain_fn(w.0, cfv, stmts@, w.1, (fuel - 2) as nat));
                }
            }
        }
        self.fn_returned = child.fn_returned;
        self.exports = child.exports;
        self.reexports = child.reexports;
    }

    /// As `walk_body`, for a single branch statement.
    fn walk_body_one(&mut self, stmt: &Stmt, as_fn: bool, fuel: u64)
        requires
            sets_ok(*old(self)),
        ensures
            sets_ok(*final(self)),
            final(self).idents == old(self).idents,
            final(self).exports_alias == old(self).exports_alias,
            final(self).node_env == old(self).node_env,
            final(self).call_mode == old(self).call_mode,
            fuel >= 2 ==> exists|c0: CJSLexer, m: CJSLexer, l1: CJSLexer|
                #![trigger spec_mark_step(c0, m, *stmt, (fuel - 2) as nat),
                    spec_branch_step(m, l1, *stmt, as_fn, (fuel - 2) as nat)]
                {
                    &&& c0.idents@ == old(self).idents@
                    &&& c0.exports_alias@ == old(self).exports_alias@
                    &&& c0.exports@ == old(self).exports@
                    &&& c0.reexports@ == old(self).reexports@
                    &&& c0.node_env == old(self).node_env
                    &&& !c0.call_mode
                    &&& !c0.fn_returned
                    &&& spec_mark_step(c0, m, *stmt, (fuel - 2) as nat)
                    &&& spec_branch_step(m, l1, *stmt, as_fn, (fuel - 2) as nat)
                    &&& final(self).exports@ == l1.exports@
                    &&& final(self).reexports@ == l1.reexports@
                    &&& final(self).fn_returned == l1.fn_returned
                },
        decreases fuel,
    {
        if fuel == 0 {
            return ;
        }
        let f: u64 = fuel - 1;
        let mut child = CJSLexer {
            node_env: self.node_env.clone(),
            call_mode: false,
            fn_returned: false,
            exports_alias: self.exports_alias.duplicate(),
            idents: self.idents.duplicate(),
            exports: self.exports.duplicate(),
            reexports: self.reexports.duplicate(),
        };
        let ghost c0v = child;
        child.walk_one(stmt, as_fn, f);
        proof {
            if fuel >= 2 {
                let cfv = child;
                if !as_fn {
                    let m0 = choose|m: CJSLexer|
                        spec_mark_step(c0v, m, *stmt, (f - 1) as nat)
                            && #[trigger] spec_export_step(m, cfv, *stmt, (f - 1) as nat);
                    assert((f - 1) as nat == (fuel - 2) as nat);
                    assert(spec_mark_step(c0v, m0, *stmt, (fuel - 2) as nat));
                    assert(spec_branch_step(m0, cfv, *stmt, as_fn, (fuel - 2) as nat));
                } else {
                    let m0 = choose|m: CJSLexer|
                        spec_mark_step(c0v, m, *stmt, (f - 1) as nat)
                            && #[trigger] spec_export_step_fn(m, cfv, *stmt, (f - 1) as nat);
                    assert((f - 1) as nat == (fuel - 2) as nat);
                    assert(spec_mark_step(c0v, m0, *stmt, (fuel - 2) as nat));
                    assert(spec_branch_step(m0, cfv, *stmt, as_fn, (fuel - 2) as nat));
                }
            }
        }
        self.fn_returned = child.fn_returned;
        self.exports = child.exports;
        self.reexports = child.reexports;
    }

    /// The export pass over one statement in function-call mode: a `return`
    /// sets the returned flag and resets to the returned expression.
    fn export_stmt_fn(&mut self, stmt: &Stmt, fuel: u64)
        requires
            sets_ok(*old(self)),
        ensures
            final(self).idents == old(self).idents,
            final(self).node_env == old(self).node_env,
            final(self).call_mode == old(self).call_mode,
            sets_ok(*final(self)),
            spec_export_step_fn(*old(self), *final(self), *stmt, fuel as nat),
        decreases fuel,
    {
        if fuel == 0 {
            return ;
        }
        let f: u64 = fuel - 1;
        match stmt {
            Stmt::Block(stmts) => {
                self.walk_body(stmts, true, f);
            },
            Stmt::If { test, cons, alt } => {
                if self.is_true(test) {
                    self.walk_body_one(cons, true, f);
                } else if let Some(a) = alt {
                    self.walk_body_one(a, true, f);
                }
            },
            Stmt::Return(arg) => {
                self.fn_returned = true;
                if let Some(e) = arg {
                    let ghost pre = *self;
                    self.reset(e, f);
                    proof {
                        lemma_reset_full_implies_shallow(
                            pre.idents@,
                            pre.exports_alias@,
                            pre.node_env@,
                            pre.call_mode,
                            pre.exports@,
                            pre.reexports@,
                            *self,
                            *(*e),
                            f as nat,
                        );
                    }
                }
            },
            _ => {},
        }
    }

    /// The statement-mode handling of a variable statement: records new
    /// exports aliases and harvests the bare-export idiom from the
    /// initializers, in declaration order.
    fn var_discovery(&mut self, decls: &Vec<VarDeclarator>)
        requires
            sets_ok(*old(self)),
        ensures
            final(self).node_env == old(self).node_env,
            final(self).call_mode == old(self).call_mode,
            sets_ok(*final(self)),
            final(self).idents == old(self).idents,
            final(self).fn_returned == old(self).fn_returned,
            final(self).reexports@ == old(self).reexports@,
            final(self).exports@ == crate::names::spec_insert_all(
                old(self).exports@,
                spec_var_discovery(old(self).exports_alias@, decls@, 0).0,
            ),
            final(self).exports_alias@ == spec_var_discovery(
                old(self).exports_alias@,
                decls@,
                0,
            ).1,
    {
        let ghost ex0 = self.exports@;
        let ghost alias0 = self.exports_alias@;
        let ghost whole = spec_var_discovery(alias0, decls@, 0);
        let n = decls.len();
        let mut i: usize = 0;
        let ghost mut processed: Seq<Seq<char>> = Seq::empty();
        proof {
            assert(processed + whole.0 =~= whole.0);
        }
        while i < n
            invariant
                self.node_env == old(self).node_env,
                self.call_mode == old(self).call_mode,
                n == decls@.len(),
                i <= n,
                sets_ok(*self),
                self.idents == old(self).idents,
                self.fn_returned == old(self).fn_returned,
                self.reexports@ == old(self).reexports@,
                ex0 == old(self).exports@,
                alias0 == old(self).exports_alias@,
                whole == spec_var_discovery(alias0, decls@, 0),
                self.exports@ == crate::names::spec_insert_all(ex0, processed),
                whole.0 == processed + spec_var_discovery(self.exports_alias@, decls@, i as int).0,
                whole.1 == spec_var_discovery(self.exports_alias@, decls@, i as int).1,
            decreases n - i,
        {
            let ghost rest = spec_var_discovery(self.exports_alias@, decls@, i as int);
            let d = &decls[i];
            self.try_to_mark_exports_alias(d);
            let ghost a2 = self.exports_alias@;
            let ghost names = match decls@[i as int].init {
                Some(init) => spec_opt_names(spec_bare_export_a(a2, *init)),
                None => Seq::<Seq<char>>::empty(),
            };
            proof {
                assert(rest.0 == names + spec_var_discovery(a2, decls@, i + 1).0);
                assert(rest.1 == spec_var_discovery(a2, decls@, i + 1).1);
            }
            match &d.init {
                Some(init) => {
                    match self.get_bare_export_names(init) {
                        Some(bare) => {
                            proof {
                                assert(names =~= seq![bare@]);
                                crate::names::lemma_insert_all_app(ex0, processed, seq![bare@]);
                                crate::names::lemma_insert_all_one(self.exports@, bare@);
                            }
                            self.exports.insert(bare);
                        },
                        None => {
                            proof {
                                assert(names =~= Seq::<Seq<char>>::empty());
                            }
                        },
                    }
                },
                None => {
                    proof {
                        assert(names =~= Seq::<Seq<char>>::empty());
                    }
                },
            }
            proof {
                let processed_pre = processed;
                processed = processed + names;
                assert(self.exports@ == crate::names::spec_insert_all(ex0, processed));
                assert(processed_pre + (names + spec_var_discovery(
                    self.exports_alias@,
                    decls@,
                    i + 1,
                ).0) =~= processed + spec_var_discovery(self.exports_alias@, decls@, i + 1).0);
            }
            i = i + 1;
        }
        proof {
            assert(spec_var_discovery(self.exports_alias@, decls@, n as int).0
                =~= Seq::<Seq<char>>::empty());
            assert(whole.0 =~= processed);
        }
    }

    /// The export pass over one statement in statement mode.
    fn export_stmt(&mut self, stmt: &Stmt, fuel: u64)
        requires
            sets_ok(*old(self)),
        ensures
            final(self).node_env == old(self).node_env,
            final(self).call_mode == old(self).call_mode,
            sets_ok(*final(self)),
            spec_export_step(*old(self), *final(self), *stmt, fuel as nat),
        decreases fuel,
    {
        if fuel == 0 {
            return ;
        }
        let f: u64 = fuel - 1;
        match stmt {
            Stmt::Decl(Decl::Var(decls)) => {
                self.var_discovery(decls);
            },
            Stmt::Expr(e) => {
                self.parse_expr(e, f);
            },
            Stmt::Block(stmts) => {
                self.walk_body(stmts, false, f);
            },
            Stmt::If { test, cons, alt } => {
                if self.is_true(test) {
                    self.walk_body_one(cons, false, f);
                } else if let Some(a) = alt {
                    self.walk_body_one(a, false, f);
                }
            },
            Stmt::Return(Some(arg)) => {
                self.scan_module_return(arg, f);
            },
            _ => {},
        }
    }

    /// Statement-mode handling of a top-level `return`: recognizes the
    /// bundler wrapper families whose export surface sits inside the
    /// returned call.
    fn scan_module_return(&mut self, arg: &Expr, fuel: u64)
        requires
            sets_ok(*old(self)),
        ensures
            final(self).idents == old(self).idents,
            final(self).node_env == old(self).node_env,
            final(self).call_mode == old(self).call_mode,
            sets_ok(*final(self)),
        decreases fuel,
    {
        if fuel == 0 {
            return ;
        }
        let f: u64 = fuel - 1;
        let call = match arg {
            Expr::Call(c) => c,
            _ => {
                return ;
            },
        };
        let callee: &Expr = match &call.callee {
            Some(c) => c,
            None => {
                return ;
            },
        };
        match callee {
            Expr::Fn(fe) => {
                // The webpack 4 module-table form: the helper is declared as
                // the first (or second) function of the callee body.
                if let Some(body) = &fe.body {
                    let mut checked = false;
                    if body.len() > 0 {
                        if let Stmt::Decl(Decl::Fn { body: inner, .. }) = &body[0] {
                            if let Some(b0) = inner {
                                self.webpack4_scan(call, b0, f);
                            }
                            checked = true;
                        }
                    }
                    if !checked && body.len() > 1 {
                        if let Stmt::Decl(Decl::Fn { body: inner, .. }) = &body[1] {
                            if let Some(b1) = inner {
                                self.webpack4_scan(call, b1, f);
                            }
                        }
                    }
                }
            },
            Expr::Paren(inner) => {
                if let Expr::Arrow(a) = &**inner {
                    self.scan_wrapper_arrow(call, &a.body, f);
                }
            },
            _ => {},
        }
    }

    /// The webpack 5 style wrappers: an arrow whose body declares a runtime
    /// helper with `r` and `d` members, installs the exports through them,
    /// and returns the exports object.
    fn scan_wrapper_arrow(&mut self, call: &CallData, stmts: &Vec<Stmt>, fuel: u64)
        requires
            sets_ok(*old(self)),
        ensures
            final(self).idents == old(self).idents,
            final(self).node_env == old(self).node_env,
            final(self).call_mode == old(self).call_mode,
            sets_ok(*final(self)),
        decreases fuel,
    {
        if fuel == 0 {
            return ;
        }
        let f: u64 = fuel - 1;
        let n = stmts.len();
        let first: usize = if n > 0 && is_use_strict(&stmts[0]) {
            1
        } else {
            0
        };
        // Helper declared as an object literal with `r` and `d` keys.
        if first < n {
            if let Stmt::Decl(Decl::Var(decls)) = &stmts[first] {
                if decls.len() > 0 {
                    let d = &decls[0];
                    if let Pat::Ident(sym) = &d.name {
                        if let Some(init) = &d.init {
                            if let Expr::Object(props) = &**init {
                                if webpack_props_in_object(props) == 2 {
                                    let sym = sym.clone();
                                    self.get_webpack_exports(stmts, sym.as_str(), first + 1);
                                }
                            }
                        }
                    }
                }
            }
        }
        // Helper declared as a function with `r` and `d` dot-assignments.
        if first + 1 < n {
            if let Stmt::Decl(Decl::Fn { name: rsym, .. }) = &stmts[first + 1] {
                if webpack_props_in_stmts(stmts, rsym.as_str(), f) == 2 {
                    if let Stmt::Return(Some(ra)) = &stmts[n - 1] {
                        if let Expr::Comma(exprs) = &**ra {
                            if exprs.len() > 0 {
                                if let Expr::Call(c2) = &exprs[0] {
                                    if let Some(body2) = is_iife_call(c2) {
                                        let rsym = rsym.clone();
                                        self.get_webpack_exports(&body2, rsym.as_str(), 0);
                                    }
                                }
                            }
                        }
                    }
                }
            }
        }
        // The last-return form: the wrapper returns the inner exports
        // identifier, which is promoted to an exports alias before the body
        // is walked again.
        if n > 0 {
            if let Stmt::Return(Some(ra)) = &stmts[n - 1] {
                if let Expr::Comma(exprs) = &**ra {
                    if exprs.len() > 0 {
                        if let Expr::Ident(mod_sym) = &exprs[exprs.len() - 1] {
                            if let Expr::Call(c3) = &exprs[0] {
                                if let Some(body3) = is_iife_call(c3) {
                                    if let Some(inner_sym) = last_return_alias(
                                        &body3,
                                        0,
                                        mod_sym.as_str(),
                                    ) {
                                        self.exports_alias.insert(inner_sym);
                                        self.walk_body(&body3, false, f);
                                        return ;
                                    }
                                    if let Some(inner_sym) = last_return_alias(
                                        &body3,
                                        1,
                                        mod_sym.as_str(),
                                    ) {
                                        self.exports_alias.insert(inner_sym);
                                        self.walk_body(&body3, false, f);
                                        return ;
                                    }
                                }
                            }
                        }
                    }
                }
            }
        }
    }

    /// The webpack 4 per-module form: module functions receive positional
    /// `(module, exports, require)` parameters, and the exports are
    /// installed through `require.r` / `require.d` calls and a `default`
    /// assignment.
    fn webpack4_scan(&mut self, call: &CallData, helper_body: &Vec<Stmt>, fuel: u64)
        requires
            sets_ok(*old(self)),
        ensures
            final(self).idents == old(self).idents,
            final(self).node_env == old(self).node_env,
            final(self).call_mode == old(self).call_mode,
            sets_ok(*final(self)),
        decreases fuel,
    {
        if fuel == 0 {
            return ;
        }
        let f: u64 = fuel - 1;
        if helper_body.len() == 0 {
            return ;
        }
        let cons = match &helper_body[0] {
            Stmt::If { cons, .. } => cons,
            _ => {
                return ;
            },
        };
        let ra = match &**cons {
            Stmt::Return(Some(ra)) => ra,
            _ => {
                return ;
            },
        };
        match &**ra {
            Expr::Member { prop: MemberProp::Ident(p), .. } => {
                if !str_eq(p.as_str(), "exports") {
                    return ;
                }
            },
            _ => {
                return ;
            },
        }
        if call.args.len() != 1 {
            return ;
        }
        let elems = match &*call.args[0].expr {
            Expr::Array(elems) => elems,
            _ => {
                return ;
            },
        };
        let n = elems.len();
        let mut i: usize = 0;
        while i < n
            invariant
                self.idents == old(self).idents,
                self.node_env == old(self).node_env,
                self.call_mode == old(self).call_mode,
                f < fuel,
                n == elems@.len(),
                i <= n,
                sets_ok(*self),
            decreases n - i,
        {
            if let Some(eos) = &elems[i] {
                if let Expr::Fn(mf) = &*eos.expr {
                    if let Some(mb) = &mf.body {
                        if mf.params.len() >= 2 {
                            if let Pat::Ident(exports_sym) = &mf.params[1] {
                                let mut require_sym: Option<&String> = None;
                                if mf.params.len() >= 3 {
                                    if let Pat::Ident(rs) = &mf.params[2] {
                                        require_sym = Some(rs);
                                    }
                                }
                                let m = mb.len();
                                let mut j: usize = 0;
                                while j < m
                                    invariant
                                        self.idents == old(self).idents,
                                        self.node_env == old(self).node_env,
                                        self.call_mode == old(self).call_mode,
                                        f < fuel,
                                        m == mb@.len(),
                                        j <= m,
                                        sets_ok(*self),
                                    decreases m - j,
                                {
                                    if let Stmt::Expr(e) = &mb[j] {
                                        match require_sym {
                                            Some(rs) => {
                                                self.get_webpack4_exports(
                                                    e,
                                                    exports_sym.as_str(),
                                                    Some(rs.as_str()),
                                                    f,
                                                );
                                            },
                                            None => {
                                                self.get_webpack4_exports(
                                                    e,
                                                    exports_sym.as_str(),
                                                    None,
                                                    f,
                                                );
                                            },
                                        }
                                    }
                                    j = j + 1;
                                }
                            }
                        }
                    }
                }
            }
            i = i + 1;
        }
    }

    /// Collects exports from one webpack 4 module statement: `r.r(t)`
    /// yields the `__esModule` sentinel, `r.d(t, "name", fn)` the literal
    /// name, and `t.default = ...` the name `default`.
    fn get_webpack4_exports(
        &mut self,
        expr: &Expr,
        exports_sym: &str,
        require_sym: Option<&str>,
        fuel: u64,
    )
        requires
            sets_ok(*old(self)),
        ensures
            final(self).node_env == old(self).node_env,
            final(self).call_mode == old(self).call_mode,
            sets_ok(*final(self)),
            final(self).idents == old(self).idents,
            final(self).exports_alias == old(self).exports_alias,
            final(self).fn_returned == old(self).fn_returned,
            final(self).reexports@ == old(self).reexports@,
            final(self).exports@ == crate::names::spec_insert_all(
                old(self).exports@,
                spec_w4_one(*expr, exports_sym@, spec_opt_str(require_sym), fuel as nat),
            ),
        decreases fuel,
    {
        let ghost ex0 = self.exports@;
        let ghost rsv = spec_opt_str(require_sym);
        let ghost w = spec_w4_one(*expr, exports_sym@, rsv, fuel as nat);
        proof {
            assert(crate::names::spec_insert_all(ex0, Seq::<Seq<char>>::empty()) == ex0);
        }
        if fuel == 0 {
            return ;
        }
        let f: u64 = fuel - 1;
        match expr {
            Expr::Comma(exprs) => {
                let n = exprs.len();
                let mut i: usize = 0;
                proof {
                    assert(exprs@.take(0) =~= Seq::<Expr>::empty());
                }
                while i < n
                    invariant
                        self.node_env == old(self).node_env,
                        self.call_mode == old(self).call_mode,
                        f == fuel - 1,
                        n == exprs@.len(),
                        i <= n,
                        fuel as nat != 0,
                        sets_ok(*self),
                        self.idents == old(self).idents,
                        self.exports_alias == old(self).exports_alias,
                        self.fn_returned == old(self).fn_returned,
                        self.reexports@ == old(self).reexports@,
                        ex0 == old(self).exports@,
                        rsv == spec_opt_str(require_sym),
                        self.exports@ == crate::names::spec_insert_all(
                            ex0,
                            spec_w4_list(exprs@.take(i as int), exports_sym@, rsv, fuel as nat),
                        ),
                    decreases n - i,
                {
                    let ghost wpre = spec_w4_list(
                        exprs@.take(i as int),
                        exports_sym@,
                        rsv,
                        fuel as nat,
                    );
                    let ghost wone = spec_w4_one(
                        exprs@[i as int],
                        exports_sym@,
                        rsv,
                        f as nat,
                    );
                    proof {
                        assert(exprs@.take(i + 1).drop_last() =~= exprs@.take(i as int));
                        assert(exprs@.take(i + 1).last() == exprs@[i as int]);
                        crate::names::lemma_insert_all_app(ex0, wpre, wone);
                    }
                    match require_sym {
                        Some(rs) => {
                            self.get_webpack4_exports(&exprs[i], exports_sym, Some(rs), f);
                        },
                        None => {
                            self.get_webpack4_exports(&exprs[i], exports_sym, None, f);
                        },
                    }
                    i = i + 1;
                }
                proof {
                    assert(exprs@.take(n as int) =~= exprs@);
                }
            },
            Expr::Call(call) => {
                match require_sym {
                    Some(rs) => {
                        let mut matched = false;
                        if let Some(callee) = &call.callee {
                            if let Expr::Member { obj, prop } = &**callee {
                                if let Expr::Ident(o) = &**obj {
                                    if let MemberProp::Ident(p) = prop {
                                        matched = true;
                                        let ghost r_part: Seq<Seq<char>> = if o@ == rs@ && p@
                                            == "r"@ {
                                            seq!["__esModule"@]
                                        } else {
                                            Seq::empty()
                                        };
                                        if str_eq(o.as_str(), rs) && str_eq(p.as_str(), "r") {
                                            let sentinel = "__esModule".to_owned();
                                            proof {
                                                crate::names::lemma_insert_all_one(
                                                    ex0,
                                                    sentinel@,
                                                );
                                            }
                                            self.exports.insert(sentinel);
                                        }
                                        proof {
                                            assert(self.exports@
                                                == crate::names::spec_insert_all(ex0, r_part));
                                        }
                                        let ghost d_lit: Seq<Seq<char>> = if o@ == rs@ && p@
                                            == "d"@ && call.args.len() > 1 {
                                            match *call.args[1 as int].expr {
                                                Expr::Lit(Lit::Str(v)) => seq![v@],
                                                _ => Seq::empty(),
                                            }
                                        } else {
                                            Seq::empty()
                                        };
                                        let mut inserted_d = false;
                                        if str_eq(o.as_str(), rs) && str_eq(p.as_str(), "d") {
                                            if call.args.len() > 1 {
                                                if let Expr::Lit(Lit::Str(v)) = &*call.args[1].expr
                                                {
                                                    proof {
                                                        crate::names::lemma_insert_all_app(
                                                            ex0,
                                                            r_part,
                                                            seq![v@],
                                                        );
                                                        crate::names::lemma_insert_all_one(
                                                            self.exports@,
                                                            v@,
                                                        );
                                                    }
                                                    self.exports.insert(v.clone());
                                                    inserted_d = true;
                                                }
                                            }
                                        }
                                        proof {
                                            if !inserted_d {
                                                assert(d_lit =~= Seq::<Seq<char>>::empty());
                                                assert(r_part + d_lit =~= r_part);
                                            }
                                            assert(w == r_part + d_lit);
                                        }
                                    }
                                }
                            }
                        }
                        proof {
                            if !matched {
                                assert(w =~= Seq::<Seq<char>>::empty());
                            }
                        }
                    },
                    None => {
                        proof {
                            assert(w =~= Seq::<Seq<char>>::empty());
                        }
                    },
                }
            },
            Expr::Assign(assign) => {
                let mut inserted = false;
                if assign.plain {
                    if let AssignTarget::Member { obj, prop: MemberProp::Ident(p) } = &assign.left {
                        if let Expr::Ident(o) = &**obj {
                            if str_eq(o.as_str(), exports_sym) && str_eq(p.as_str(), "default") {
                                let name = "default".to_owned();
                                proof {
                                    assert(w =~= seq![name@]);
                                    crate::names::lemma_insert_all_one(ex0, name@);
                                }
                                self.exports.insert(name);
                                inserted = true;
                            }
                        }
                    }
                }
                proof {
                    if !inserted {
                        assert(w =~= Seq::<Seq<char>>::empty());
                    }
                }
            },
            _ => {
                proof {
                    assert(w =~= Seq::<Seq<char>>::empty());
                }
            },
        }
    }

    /// Scans up to eight statements after the helper declaration for the
    /// comma expression that installs the exports through the helper's `r`
    /// and `d` members, and stops at the first statement that yields any.
    fn get_webpack_exports(&mut self, stmts: &Vec<Stmt>, sym: &str, first: usize)
        requires
            sets_ok(*old(self)),
        ensures
            final(self).node_env == old(self).node_env,
            final(self).call_mode == old(self).call_mode,
            sets_ok(*final(self)),
            final(self).idents == old(self).idents,
            final(self).exports_alias == old(self).exports_alias,
            final(self).fn_returned == old(self).fn_returned,
            final(self).reexports@ == old(self).reexports@,
            final(self).exports@ == crate::names::spec_insert_all(
                old(self).exports@,
                spec_wp_scan(stmts@, sym@, first as int, 8),
            ),
    {
        let ghost ex0 = self.exports@;
        let n = stmts.len();
        let mut j: usize = first;
        let mut scanned: usize = 0;
        let ghost mut processed: Seq<Seq<char>> = Seq::empty();
        proof {
            assert(processed + spec_wp_scan(stmts@, sym@, first as int, 8) =~= spec_wp_scan(
                stmts@,
                sym@,
                first as int,
                8,
            ));
        }
        while j < n && scanned < 8
            invariant
                self.node_env == old(self).node_env,
                self.call_mode == old(self).call_mode,
                n == stmts@.len(),
                scanned <= 8,
                sets_ok(*self),
                self.idents == old(self).idents,
                self.exports_alias == old(self).exports_alias,
                self.fn_returned == old(self).fn_returned,
                self.reexports@ == old(self).reexports@,
                ex0 == old(self).exports@,
                self.exports@ == crate::names::spec_insert_all(ex0, processed),
                spec_wp_scan(stmts@, sym@, first as int, 8) == processed + spec_wp_scan(
                    stmts@,
                    sym@,
                    j as int,
                    (8 - scanned) as nat,
                ),
            decreases n - j,
        {
            let ghost st = spec_wp_stmt(stmts@[j as int], sym@);
            proof {
                crate::names::lemma_insert_all_app(ex0, processed, st.0);
            }
            let found = self.webpack_stmt_exports(&stmts[j], sym);
            proof {
                processed = processed + st.0;
            }
            if found {
                proof {
                    assert(processed + Seq::<Seq<char>>::empty() =~= processed);
                }
                return ;
            }
            j = j + 1;
            scanned = scanned + 1;
        }
        proof {
            assert(spec_wp_scan(stmts@, sym@, j as int, (8 - scanned) as nat)
                =~= Seq::<Seq<char>>::empty());
            assert(processed + Seq::<Seq<char>>::empty() =~= processed);
        }
    }

    /// One statement of the webpack export scan; reports whether it
    /// contributed an install. A call on a different receiver than the
    /// helper disqualifies the whole statement.
    fn webpack_stmt_exports(&mut self, stmt: &Stmt, sym: &str) -> (found: bool)
        requires
            sets_ok(*old(self)),
        ensures
            final(self).node_env == old(self).node_env,
            final(self).call_mode == old(self).call_mode,
            sets_ok(*final(self)),
            final(self).idents == old(self).idents,
            final(self).exports_alias == old(self).exports_alias,
            final(self).fn_returned == old(self).fn_returned,
            final(self).reexports@ == old(self).reexports@,
            final(self).exports@ == crate::names::spec_insert_all(
                old(self).exports@,
                spec_wp_stmt(*stmt, sym@).0,
            ),
            found == spec_wp_stmt(*stmt, sym@).1,
    {
        let ghost ex0 = self.exports@;
        let e = match stmt {
            Stmt::Expr(e) => e,
            _ => {
                proof {
                    assert(crate::names::spec_insert_all(ex0, Seq::<Seq<char>>::empty()) == ex0);
                }
                return false;
            },
        };
        let exprs = match &**e {
            Expr::Comma(exprs) => exprs,
            _ => {
                proof {
                    assert(crate::names::spec_insert_all(ex0, Seq::<Seq<char>>::empty()) == ex0);
                }
                return false;
            },
        };
        let ghost whole = spec_wp_elems(exprs@, sym@, 0);
        let mut found = false;
        let n = exprs.len();
        let mut i: usize = 0;
        let ghost mut processed: Seq<Seq<char>> = Seq::empty();
        proof {
            assert(processed + whole.0 =~= whole.0);
        }
        while i < n
            invariant
                self.node_env == old(self).node_env,
                self.call_mode == old(self).call_mode,
                n == exprs@.len(),
                i <= n,
                sets_ok(*self),
                self.idents == old(self).idents,
                self.exports_alias == old(self).exports_alias,
                self.fn_returned == old(self).fn_returned,
                self.reexports@ == old(self).reexports@,
                ex0 == old(self).exports@,
                whole == spec_wp_elems(exprs@, sym@, 0),
                spec_wp_stmt(*stmt, sym@) == (whole.0, whole.1 && !whole.2),
                self.exports@ == crate::names::spec_insert_all(ex0, processed),
                whole.0 == processed + spec_wp_elems(exprs@, sym@, i as int).0,
                whole.1 == (found || spec_wp_elems(exprs@, sym@, i as int).1),
                whole.2 == spec_wp_elems(exprs@, sym@, i as int).2,
            decreases n - i,
        {
            let ghost cur = spec_wp_elem(exprs@[i as int], sym@);
            let mut handled = false;
            if let Expr::Call(call) = &exprs[i] {
                if let Some(callee) = &call.callee {
                    if let Expr::Member { obj, prop } = &**callee {
                        if let Expr::Ident(o) = &**obj {
                            if let MemberProp::Ident(p) = prop {
                                handled = true;
                                if !str_eq(o.as_str(), sym) {
                                    proof {
                                        assert(cur.2);
                                        assert(spec_wp_elems(exprs@, sym@, i as int).0
                                            =~= Seq::<Seq<char>>::empty());
                                        assert(whole.0 =~= processed);
                                        assert(whole.0 == processed);
                                        assert(whole.2);
                                        assert(!(whole.1 && !whole.2));
                                    }
                                    return false;
                                }
                                let ghost found_pre = found;
                                let ghost r_names: Seq<Seq<char>> = if p@ == "r"@ {
                                    seq!["__esModule"@]
                                } else {
                                    Seq::empty()
                                };
                                if str_eq(p.as_str(), "r") {
                                    let sentinel = "__esModule".to_owned();
                                    proof {
                                        crate::names::lemma_insert_all_app(
                                            ex0,
                                            processed,
                                            seq![sentinel@],
                                        );
                                        crate::names::lemma_insert_all_one(
                                            self.exports@,
                                            sentinel@,
                                        );
                                    }
                                    self.exports.insert(sentinel);
                                    found = true;
                                }
                                let ghost found_r = found;
                                proof {
                                    assert(found_r == (found_pre || p@ == "r"@));
                                    assert(self.exports@ == crate::names::spec_insert_all(
                                        ex0,
                                        processed + r_names,
                                    ));
                                }
                                let ghost d_names: Seq<Seq<char>> = if p@ == "d"@
                                    && call.args.len() > 1 {
                                    match *call.args[1 as int].expr {
                                        Expr::Object(props) => spec_descriptor_keys(props@),
                                        _ => Seq::empty(),
                                    }
                                } else {
                                    Seq::empty()
                                };
                                let mut installed_d = false;
                                if str_eq(p.as_str(), "d") {
                                    if call.args.len() > 1 {
                                        if let Expr::Object(props) = &*call.args[1].expr {
                                            installed_d = true;
                                            let m = props.len();
                                            let mut k: usize = 0;
                                            proof {
                                                assert(props@.take(0)
                                                    =~= Seq::<PropOrSpread>::empty());
                                            }
                                            while k < m
                                                invariant
                                                    self.node_env == old(self).node_env,
                                                    self.call_mode == old(self).call_mode,
                                                    m == props@.len(),
                                                    k <= m,
                                                    sets_ok(*self),
                                                    self.idents == old(self).idents,
                                                    self.exports_alias == old(
                                                        self,
                                                    ).exports_alias,
                                                    self.fn_returned == old(self).fn_returned,
                                                    self.reexports@ == old(self).reexports@,
                                                    ex0 == old(self).exports@,
                                                    found == (found_r || spec_descriptor_keys(
                                                        props@.take(k as int),
                                                    ).len() > 0),
                                                    self.exports@
                                                        == crate::names::spec_insert_all(
                                                        ex0,
                                                        processed + r_names
                                                            + spec_descriptor_keys(
                                                            props@.take(k as int),
                                                        ),
                                                    ),
                                                decreases m - k,
                                            {
                                                proof {
                                                    assert(props@.take(k + 1).drop_last()
                                                        =~= props@.take(k as int));
                                                    assert(props@.take(k + 1).last()
                                                        == props@[k as int]);
                                                }
                                                if let PropOrSpread::Prop(
                                                    Prop::KeyValue {
                                                        key: PropName::Ident(k2),
                                                        ..
                                                    },
                                                ) = &props[k] {
                                                    proof {
                                                        crate::names::lemma_insert_all_app(
                                                            ex0,
                                                            processed + r_names
                                                                + spec_descriptor_keys(
                                                                props@.take(k as int),
                                                            ),
                                                            seq![k2@],
                                                        );
                                                        crate::names::lemma_insert_all_one(
                                                            self.exports@,
                                                            k2@,
                                                        );
                                                        assert((processed + r_names
                                                            + spec_descriptor_keys(
                                                            props@.take(k as int),
                                                        )) + seq![k2@] =~= processed + r_names
                                                            + spec_descriptor_keys(
                                                            props@.take(k + 1),
                                                        ));
                                                    }
                                                    self.exports.insert(k2.clone());
                                                    found = true;
                                                } else {
                                                    proof {
                                                        assert(spec_descriptor_keys(
                                                            props@.take(k + 1),
                                                        ) =~= spec_descriptor_keys(
                                                            props@.take(k as int),
                                                        ));
                                                    }
                                                }
                                                k = k + 1;
                                            }
                                            proof {
                                                assert(props@.take(m as int) =~= props@);
                                            }
                                        }
                                    }
                                }
                                proof {
                                    if !installed_d {
                                        assert(d_names =~= Seq::<Seq<char>>::empty());
                                        assert(processed + r_names + d_names =~= processed
                                            + r_names);
                                    }
                                    assert(cur.0 == r_names + d_names);
                                    assert(found == (found_pre || cur.1));
                                    assert(self.exports@ == crate::names::spec_insert_all(
                                        ex0,
                                        processed + r_names + d_names,
                                    ));
                                    assert(processed + r_names + d_names =~= processed + cur.0);
                                    processed = processed + cur.0;
                                }
                            }
                        }
                    }
                }
            }
            proof {
                if !handled {
                    assert(cur.0 =~= Seq::<Seq<char>>::empty());
                    assert(processed + cur.0 =~= processed);
                    processed = processed + cur.0;
                }
            }
            i = i + 1;
        }
        proof {
            assert(whole.0 =~= processed);
        }
        found
    }

    /// The walk over a statement list: a marking pass, then the export pass
    /// in the requested mode. The walk is bounded by the depth budget, so it
    /// terminates on every tree; a statement beyond the budget contributes
    /// nothing.
    fn walk(&mut self, stmts: &Vec<Stmt>, as_fn: bool, fuel: u64)
        requires
            sets_ok(*old(self)),
        ensures
            sets_ok(*final(self)),
            fuel == 0 ==> final(self).exports@ == old(self).exports@ && final(self).reexports@
                == old(self).reexports@ && final(self).fn_returned == old(self).fn_returned,
            (!as_fn && fuel != 0) ==> exists|lm: CJSLexer|
                {
                    &&& lm.exports@ == old(self).exports@
                    &&& lm.reexports@ == old(self).reexports@
                    &&& lm.node_env == old(self).node_env
                    &&& lm.call_mode == old(self).call_mode
                    &&& lm.fn_returned == old(self).fn_returned
                    &&& exists|kk: int|
                        0 <= kk <= stmts@.len() && #[trigger] spec_mark_chain(
                            *old(self),
                            lm,
                            stmts@,
                            kk,
                            (fuel - 1) as nat,
                        )
                    &&& #[trigger] spec_export_chain(
                        lm,
                        *final(self),
                        stmts@,
                        stmts@.len() as int,
                        (fuel - 1) as nat,
                    )
                },
            (as_fn && fuel != 0) ==> exists|lm: CJSLexer, k: int|
                {
                    &&& 0 <= k <= stmts@.len()
                    &&& lm.exports@ == old(self).exports@
                    &&& lm.reexports@ == old(self).reexports@
                    &&& lm.node_env == old(self).node_env
                    &&& lm.call_mode == old(self).call_mode
                    &&& lm.fn_returned == old(self).fn_returned
                    &&& exists|kk: int|
                        0 <= kk <= stmts@.len() && #[trigger] spec_mark_chain(
                            *old(self),
                            lm,
                            stmts@,
                            kk,
                            (fuel - 1) as nat,
                        )
                    &&& #[trigger] spec_export_chain_fn(lm, *final(self), stmts@, k, (
                    fuel - 1) as nat)
                    &&& k < stmts@.len() ==> final(self).fn_returned
                },
        decreases fuel,
    {
        if fuel == 0 {
            return ;
        }
        let f: u64 = fuel - 1;
        let n = stmts.len();
        let mut i: usize = 0;
        while i < n
            invariant_except_break
                spec_mark_chain(*old(self), *self, stmts@, i as int, f as nat),
            invariant
                self.node_env == old(self).node_env,
                self.call_mode == old(self).call_mode,
                f == fuel - 1,
                n == stmts@.len(),
                i <= n,
                sets_ok(*self),
                self.exports@ == old(self).exports@,
                self.reexports@ == old(self).reexports@,
                self.fn_returned == old(self).fn_returned,
            ensures
                exists|kk: int|
                    0 <= kk <= n && #[trigger] spec_mark_chain(
                        *old(self),
                        *self,
                        stmts@,
                        kk,
                        f as nat,
                    ),
            decreases n - i,
        {
            let ghost prevm = *self;
            let marked_return = self.mark_stmt(&stmts[i], f);
            proof {
                let ii: int = i as int;
                assert(stmts@[ii + 1 - 1] == stmts@[ii]);
                assert(spec_mark_step(prevm, *self, stmts@[ii + 1 - 1], f as nat));
                assert(spec_mark_chain(*old(self), prevm, stmts@, ii + 1 - 1, f as nat));
                assert(spec_mark_chain(*old(self), *self, stmts@, ii + 1, f as nat));
            }
            if marked_return {
                break ;
            }
            i = i + 1;
        }
        if as_fn {
            let ghost lmf = *self;
            let mut j: usize = 0;
            while j < n
                invariant
                    self.node_env == old(self).node_env,
                    self.call_mode == old(self).call_mode,
                    as_fn,
                    f == fuel - 1,
                    n == stmts@.len(),
                    j <= n,
                    sets_ok(*self),
                    lmf.exports@ == old(self).exports@,
                    lmf.reexports@ == old(self).reexports@,
                    lmf.node_env == old(self).node_env,
                    lmf.call_mode == old(self).call_mode,
                    lmf.fn_returned == old(self).fn_returned,
                    exists|kk: int|
                        0 <= kk <= n && #[trigger] spec_mark_chain(
                            *old(self),
                            lmf,
                            stmts@,
                            kk,
                            f as nat,
                        ),
                    spec_export_chain_fn(lmf, *self, stmts@, j as int, f as nat),
                decreases n - j,
            {
                if self.fn_returned {
                    proof {
                        assert(f as nat == (fuel - 1) as nat);
                        assert(spec_export_chain_fn(
                            lmf,
                            *self,
                            stmts@,
                            j as int,
                            (fuel - 1) as nat,
                        ));
                        let kk0 = choose|kk: int|
                            0 <= kk <= n && #[trigger] spec_mark_chain(
                                *old(self),
                                lmf,
                                stmts@,
                                kk,
                                f as nat,
                            );
                        assert(spec_mark_chain(*old(self), lmf, stmts@, kk0, (fuel - 1) as nat));
                    }
                    return ;
                }
                let ghost prevf = *self;
                self.export_stmt_fn(&stmts[j], f);
                proof {
                    let jj: int = j as int;
                    assert(stmts@[jj + 1 - 1] == stmts@[jj]);
                    assert(spec_export_step_fn(prevf, *self, stmts@[jj + 1 - 1], f as nat));
                    assert(spec_export_chain_fn(lmf, prevf, stmts@, jj + 1 - 1, f as nat));
                    assert(spec_export_chain_fn(lmf, *self, stmts@, jj + 1, f as nat));
                }
                j = j + 1;
            }
            proof {
                assert(f as nat == (fuel - 1) as nat);
                assert(spec_export_chain_fn(
                    lmf,
                    *self,
                    stmts@,
                    stmts@.len() as int,
                    (fuel - 1) as nat,
                ));
                let kk0 = choose|kk: int|
                    0 <= kk <= n && #[trigger] spec_mark_chain(
                        *old(self),
                        lmf,
                        stmts@,
                        kk,
                        f as nat,
                    );
                assert(spec_mark_chain(*old(self), lmf, stmts@, kk0, (fuel - 1) as nat));
            }
            return ;
        }
        let ghost lm = *self;
        let mut j: usize = 0;
        while j < n
            invariant
                self.node_env == old(self).node_env,
                self.call_mode == old(self).call_mode,
                f == fuel - 1,
                n == stmts@.len(),
                j <= n,
                sets_ok(*self),
                lm.exports@ == old(self).exports@,
                lm.reexports@ == old(self).reexports@,
                spec_export_chain(lm, *self, stmts@, j as int, f as nat),
            decreases n - j,
        {
            let ghost prev = *self;
            self.export_stmt(&stmts[j], f);
            proof {
                let jj: int = j as int;
                assert(stmts@[jj + 1 - 1] == stmts@[jj]);
                assert(spec_export_step(prev, *self, stmts@[jj + 1 - 1], f as nat));
                assert(spec_export_chain(lm, prev, stmts@, jj + 1 - 1, f as nat));
                assert(spec_export_chain(lm, *self, stmts@, jj + 1, f as nat));
            }
            j = j + 1;
        }
        proof {
            assert(f as nat == (fuel - 1) as nat);
            assert(spec_export_chain(lm, *self, stmts@, stmts@.len() as int, (fuel - 1) as nat));
        }
    }

    /// As `walk`, over a single statement.
    fn walk_one(&mut self, stmt: &Stmt, as_fn: bool, fuel: u64)
        requires
            sets_ok(*old(self)),
        ensures
            sets_ok(*final(self)),
            (!as_fn && fuel != 0) ==> exists|m: CJSLexer|
                spec_mark_step(*old(self), m, *stmt, (fuel - 1) as nat)
                    && #[trigger] spec_export_step(m, *final(self), *stmt, (fuel - 1) as nat),
            (as_fn && fuel != 0 && !old(self).fn_returned) ==> exists|m: CJSLexer|
                spec_mark_step(*old(self), m, *stmt, (fuel - 1) as nat)
                    && #[trigger] spec_export_step_fn(m, *final(self), *stmt, (fuel - 1) as nat),
        decreases fuel,
    {
        if fuel == 0 {
            return ;
        }
        let f: u64 = fuel - 1;
        self.mark_stmt(stmt, f);
        let ghost m0 = *self;
        if as_fn {
            if !self.fn_returned {
                self.export_stmt_fn(stmt, f);
                proof {
                    assert(f as nat == (fuel - 1) as nat);
                    assert(spec_export_step_fn(m0, *self, *stmt, (fuel - 1) as nat));
                }
            }
        } else {
            self.export_stmt(stmt, f);
            proof {
                assert(f as nat == (fuel - 1) as nat);
                assert(spec_export_step(m0, *self, *stmt, (fuel - 1) as nat));
            }
        }
    }
}

/// Saturation at three: only equality with two is ever asked of the
/// helper-install counters, so anything above it may saturate.
pub open spec fn spec_cap3(n: nat) -> nat {
    if n >= 3 {
        3
    } else {
        n
    }
}

/// The number of `r` and `d` identifier keys of a helper object literal.
pub open spec fn spec_rd_keys(props: Seq<PropOrSpread>) -> nat
    decreases props.len(),
{
    if props.len() == 0 {
        0
    } else {
        spec_rd_keys(props.drop_last()) + (match props.last() {
            PropOrSpread::Prop(Prop::KeyValue { key: PropName::Ident(k), .. }) => if k@ == "r"@
                || k@ == "d"@ {
                1nat
            } else {
                0nat
            },
            _ => 0nat,
        })
    }
}

/// Whether one plain assignment installs an `r` or `d` member on the helper.
pub open spec fn spec_rd_assign_mark(a: AssignData, sym: Seq<char>) -> nat {
    if ({
        &&& a.plain
        &&& a.left matches AssignTarget::Member { obj, prop }
        &&& (*obj) matches Expr::Ident(o) && o@ == sym
        &&& prop matches MemberProp::Ident(p) && (p@ == "r"@ || p@ == "d"@)
    }) {
        1
    } else {
        0
    }
}

/// The `r`/`d` installs among the elements of one comma expression,
/// descending into immediately-invoked functions (uncapped).
pub open spec fn spec_rd_marks_elems(exprs: Seq<Expr>, sym: Seq<char>, fuel: nat) -> nat
    decreases fuel, 0int, exprs.len(),
{
    if exprs.len() == 0 || fuel == 0 {
        0
    } else {
        spec_rd_marks_elems(exprs.drop_last(), sym, fuel) + (match exprs.last() {
            Expr::Assign(a) => spec_rd_assign_mark(a, sym),
            Expr::Call(c) => match crate::matchers::spec_iife_body(c) {
                Some(b) => spec_rd_marks(b@, sym, (fuel - 1) as nat),
                None => 0,
            },
            _ => 0,
        })
    }
}

/// The `r`/`d` installs on the helper across the wrapper body (uncapped).
pub open spec fn spec_rd_marks(stmts: Seq<Stmt>, sym: Seq<char>, fuel: nat) -> nat
    decreases fuel, 1int, stmts.len(),
{
    if stmts.len() == 0 || fuel == 0 {
        0
    } else {
        spec_rd_marks(stmts.drop_last(), sym, fuel) + (match stmts.last() {
            Stmt::Expr(e) => match *e {
                Expr::Comma(exprs) => spec_rd_marks_elems(exprs@, sym, fuel),
                Expr::Assign(a) => spec_rd_assign_mark(a, sym),
                _ => 0,
            },
            _ => 0,
        })
    }
}

/// Caps a running count at three.
fn add_capped(a: u8, b: u8) -> (r: u8)
    requires
        a <= 3,
        b <= 3,
    ensures
        r as int == if a + b > 3 {
            3int
        } else {
            a + b
        },
{
    let s: u8 = a + b;
    if s > 3 {
        3
    } else {
        s
    }
}

/// Counts the `r` and `d` keys of a helper object literal, saturating at
/// three.
fn webpack_props_in_object(props: &Vec<PropOrSpread>) -> (r: u8)
    ensures
        r as nat == spec_cap3(spec_rd_keys(props@)),
{
    let n = props.len();
    let mut count: u8 = 0;
    let mut i: usize = 0;
    proof {
        assert(props@.take(0) =~= Seq::<PropOrSpread>::empty());
    }
    while i < n
        invariant
            n == props@.len(),
            i <= n,
            count <= 3,
            count as nat == spec_cap3(spec_rd_keys(props@.take(i as int))),
        decreases n - i,
    {
        proof {
            assert(props@.take(i + 1).drop_last() =~= props@.take(i as int));
            assert(props@.take(i + 1).last() == props@[i as int]);
        }
        if let PropOrSpread::Prop(Prop::KeyValue { key: PropName::Ident(k), .. }) = &props[i] {
            if str_eq(k.as_str(), "r") || str_eq(k.as_str(), "d") {
                count = add_capped(count, 1);
            }
        }
        i = i + 1;
    }
    proof {
        assert(props@.take(n as int) =~= props@);
    }
    count
}

/// Whether the assignment installs an `r` or `d` member on the helper.
fn webpack_helper_assign_mark(assign: &AssignData, sym: &str) -> (r: u8)
    ensures
        r as nat == spec_rd_assign_mark(*assign, sym@),
{
    if assign.plain {
        if let AssignTarget::Member { obj, prop: MemberProp::Ident(p) } = &assign.left {
            if let Expr::Ident(o) = &**obj {
                if str_eq(o.as_str(), sym) && (str_eq(p.as_str(), "r") || str_eq(p.as_str(), "d")) {
                    return 1;
                }
            }
        }
    }
    0
}

/// Counts the `r` and `d` dot-assignments to the helper function across the
/// wrapper body, descending into immediately-invoked functions and
/// saturating at three. The recognizer's equals-two test is thereby decided
/// by the exact install count.
fn webpack_props_in_stmts(stmts: &Vec<Stmt>, sym: &str, fuel: u64) -> (r: u8)
    ensures
        r as nat == spec_cap3(spec_rd_marks(stmts@, sym@, fuel as nat)),
    decreases fuel,
{
    if fuel == 0 {
        return 0;
    }
    let f: u64 = fuel - 1;
    let n = stmts.len();
    let mut count: u8 = 0;
    let mut i: usize = 0;
    proof {
        assert(stmts@.take(0) =~= Seq::<Stmt>::empty());
    }
    while i < n
        invariant
            f == fuel - 1,
            n == stmts@.len(),
            i <= n,
            count <= 3,
            count as nat == spec_cap3(spec_rd_marks(stmts@.take(i as int), sym@, fuel as nat)),
        decreases n - i,
    {
        proof {
            assert(stmts@.take(i + 1).drop_last() =~= stmts@.take(i as int));
            assert(stmts@.take(i + 1).last() == stmts@[i as int]);
        }
        let ghost base = spec_rd_marks(stmts@.take(i as int), sym@, fuel as nat);
        if let Stmt::Expr(e) = &stmts[i] {
            match &**e {
                Expr::Comma(exprs) => {
                    let m = exprs.len();
                    let mut j: usize = 0;
                    proof {
                        assert(exprs@.take(0) =~= Seq::<Expr>::empty());
                    }
                    while j < m
                        invariant
                            f == fuel - 1,
                            m == exprs@.len(),
                            j <= m,
                            count <= 3,
                            base == spec_rd_marks(stmts@.take(i as int), sym@, fuel as nat),
                            count as nat == spec_cap3(
                                base + spec_rd_marks_elems(
                                    exprs@.take(j as int),
                                    sym@,
                                    fuel as nat,
                                ),
                            ),
                        decreases m - j,
                    {
                        proof {
                            assert(exprs@.take(j + 1).drop_last() =~= exprs@.take(j as int));
                            assert(exprs@.take(j + 1).last() == exprs@[j as int]);
                        }
                        match &exprs[j] {
                            Expr::Assign(a) => {
                                count = add_capped(count, webpack_helper_assign_mark(a, sym));
                            },
                            Expr::Call(c) => {
                                match is_iife_call(c) {
                                    Some(b) => {
                                        count = add_capped(
                                            count,
                                            webpack_props_in_stmts(&b, sym, f),
                                        );
                                    },
                                    None => {},
                                }
                            },
                            _ => {},
                        }
                        j = j + 1;
                    }
                    proof {
                        assert(exprs@.take(m as int) =~= exprs@);
                    }
                },
                Expr::Assign(a) => {
                    count = add_capped(count, webpack_helper_assign_mark(a, sym));
                },
                _ => {},
            }
        }
        i = i + 1;
    }
    proof {
        assert(stmts@.take(n as int) =~= stmts@);
    }
    count
}

/// The last-return alias pattern: statement `k` of the wrapper body binds an
/// identifier to the wrapper's returned exports identifier.
fn last_return_alias(body: &Vec<Stmt>, k: usize, mod_sym: &str) -> Option<String> {
    if k >= body.len() {
        return None;
    }
    if let Stmt::Decl(Decl::Var(decls)) = &body[k] {
        if decls.len() > 0 {
            let d = &decls[0];
            if let Pat::Ident(inner) = &d.name {
                if let Some(init) = &d.init {
                    if let Expr::Ident(s) = &**init {
                        if str_eq(s.as_str(), mod_sym) {
                            return Some(inner.clone());
                        }
                    }
                }
            }
        }
    }
    None
}

/// The depth budget of one analysis: nested bodies beyond it contribute
/// nothing, which keeps every walk bounded by the tree.
pub const ANALYSIS_DEPTH: u64 = 4096;

/// Analyzes one module: walks the top-level statements and returns the
/// discovered exports and re-exports, each in discovery order and free of
/// duplicates. The analysis is total and side-effect free: an unrecognized
/// subtree contributes nothing, and a name absent from the result means
/// "not provable", not "definitely not exported".
pub fn parse_cjs_exports(stmts: &Vec<Stmt>, node_env: &str, call_mode: bool) -> (r: (
    Vec<String>,
    Vec<String>,
))
    ensures
        forall|i: int, j: int| 0 <= i < j < r.0@.len() ==> r.0@[i]@ != r.0@[j]@,
        forall|i: int, j: int| 0 <= i < j < r.1@.len() ==> r.1@[i]@ != r.1@[j]@,
        exists|lm: CJSLexer, l1: CJSLexer|
            {
                &&& lm.exports@ == Seq::<Seq<char>>::empty()
                &&& lm.reexports@ == Seq::<Seq<char>>::empty()
                &&& lm.node_env@ == node_env@
                &&& lm.call_mode == call_mode
                &&& !lm.fn_returned
                &&& exists|l00: CJSLexer, kk: int|
                    {
                        &&& l00.node_env@ == node_env@
                        &&& l00.call_mode == call_mode
                        &&& !l00.fn_returned
                        &&& l00.exports@ == Seq::<Seq<char>>::empty()
                        &&& l00.reexports@ == Seq::<Seq<char>>::empty()
                        &&& l00.exports_alias@ == Seq::<Seq<char>>::empty()
                        &&& l00.idents@ == Seq::<Binding>::empty()
                        &&& 0 <= kk <= stmts@.len()
                        &&& #[trigger] spec_mark_chain(
                            l00,
                            lm,
                            stmts@,
                            kk,
                            (ANALYSIS_DEPTH - 1) as nat,
                        )
                    }
                &&& #[trigger] spec_export_chain(
                    lm,
                    l1,
                    stmts@,
                    stmts@.len() as int,
                    (ANALYSIS_DEPTH - 1) as nat,
                )
                &&& r.0@.len() == l1.exports@.len()
                &&& forall|i: int| 0 <= i < r.0@.len() ==> r.0@[i]@ == l1.exports@[i]
                &&& r.1@.len() == l1.reexports@.len()
                &&& forall|i: int| 0 <= i < r.1@.len() ==> r.1@[i]@ == l1.reexports@[i]
            },
{
    let mut lexer = CJSLexer::new(node_env, call_mode);
    let ghost l00v = lexer;
    lexer.walk(stmts, false, ANALYSIS_DEPTH);
    let ghost l1v = lexer;
    let ghost ex = lexer.exports@;
    let ghost rx = lexer.reexports@;
    let exports = lexer.exports.into_names();
    let reexports = lexer.reexports.into_names();
    proof {
        let lm0 = choose|lm: CJSLexer|
            {
                &&& lm.exports@ == l00v.exports@
                &&& lm.reexports@ == l00v.reexports@
                &&& lm.node_env == l00v.node_env
                &&& lm.call_mode == l00v.call_mode
                &&& lm.fn_returned == l00v.fn_returned
                &&& exists|kk: int|
                    0 <= kk <= stmts@.len() && #[trigger] spec_mark_chain(
                        l00v,
                        lm,
                        stmts@,
                        kk,
                        (ANALYSIS_DEPTH - 1) as nat,
                    )
                &&& #[trigger] spec_export_chain(
                    lm,
                    l1v,
                    stmts@,
                    stmts@.len() as int,
                    (ANALYSIS_DEPTH - 1) as nat,
                )
            };
        let kk0 = choose|kk: int|
            0 <= kk <= stmts@.len() && #[trigger] spec_mark_chain(
                l00v,
                lm0,
                stmts@,
                kk,
                (ANALYSIS_DEPTH - 1) as nat,
            );
        assert(spec_mark_chain(l00v, lm0, stmts@, kk0, (ANALYSIS_DEPTH - 1) as nat));
        assert(spec_export_chain(
            lm0,
            l1v,
            stmts@,
            stmts@.len() as int,
            (ANALYSIS_DEPTH - 1) as nat,
        ));
        assert forall|i: int, j: int| 0 <= i < j < exports@.len() implies exports@[i]@
            != exports@[j]@ by {
            assert(exports@[i]@ == ex[i]);
            assert(exports@[j]@ == ex[j]);
            assert(ex[i] != ex[j]);
        }
        assert forall|i: int, j: int| 0 <= i < j < reexports@.len() implies reexports@[i]@
            != reexports@[j]@ by {
            assert(reexports@[i]@ == rx[i]);
            assert(reexports@[j]@ == rx[j]);
            assert(rx[i] != rx[j]);
        }
    }
    (exports, reexports)
}

} // verus!
