//! Tests of the analyzer's collection primitives and of properties that the
//! scenario suite does not state directly: determinism of a whole analysis,
//! behavior on the empty module, de-duplication, and the reset ordering.

use std::rc::Rc;

use cjs_lexer::ast;
use cjs_lexer::cjs::parse_cjs_exports;
use cjs_lexer::NameSet;

fn exports_member_assign(obj: &str, prop: &str, value: ast::Expr) -> ast::Stmt {
    ast::Stmt::Expr(Box::new(ast::Expr::Assign(ast::AssignData {
        plain: true,
        left: ast::AssignTarget::Member {
            obj: Box::new(ast::Expr::Ident(obj.to_string())),
            prop: ast::MemberProp::Ident(prop.to_string()),
        },
        right: Box::new(value),
    })))
}

fn module_exports_assign(value: ast::Expr) -> ast::Stmt {
    ast::Stmt::Expr(Box::new(ast::Expr::Assign(ast::AssignData {
        plain: true,
        left: ast::AssignTarget::Member {
            obj: Box::new(ast::Expr::Ident("module".to_string())),
            prop: ast::MemberProp::Ident("exports".to_string()),
        },
        right: Box::new(value),
    })))
}

fn object_literal(keys: &[&str]) -> ast::Expr {
    let props = keys
        .iter()
        .map(|k| {
            ast::PropOrSpread::Prop(ast::Prop::KeyValue {
                key: ast::PropName::Ident(k.to_string()),
                value: Rc::new(ast::Expr::Lit(ast::Lit::Num(1u64))),
            })
        })
        .collect();
    ast::Expr::Object(Rc::new(props))
}

fn require_call(spec: &str) -> ast::Expr {
    ast::Expr::Call(ast::CallData {
        callee: Some(Box::new(ast::Expr::Ident("require".to_string()))),
        args: vec![ast::ExprOrSpread {
            spread: false,
            expr: Box::new(ast::Expr::Lit(ast::Lit::Str(spec.to_string()))),
        }],
    })
}

#[test]
fn empty_module_yields_empty_sets() {
    let stmts: Vec<ast::Stmt> = Vec::new();
    let (exports, reexports) = parse_cjs_exports(&stmts, "development", false);
    assert_eq!(exports.join(","), "");
    assert_eq!(reexports.join(","), "");
}

#[test]
fn repeated_analysis_is_identical() {
    let stmts = vec![
        exports_member_assign("exports", "foo", ast::Expr::Lit(ast::Lit::Str("bar".to_string()))),
        module_exports_assign(object_literal(&["a", "b"])),
        exports_member_assign("exports", "tail", ast::Expr::Lit(ast::Lit::Num(1u64))),
    ];
    let first = parse_cjs_exports(&stmts, "development", false);
    let second = parse_cjs_exports(&stmts, "development", false);
    assert_eq!(first, second);
}

#[test]
fn repeated_names_are_deduplicated() {
    let stmts = vec![
        exports_member_assign("exports", "a", ast::Expr::Lit(ast::Lit::Num(1u64))),
        exports_member_assign("exports", "a", ast::Expr::Lit(ast::Lit::Num(2u64))),
        exports_member_assign("exports", "b", ast::Expr::Lit(ast::Lit::Num(3u64))),
        exports_member_assign("exports", "a", ast::Expr::Lit(ast::Lit::Num(4u64))),
    ];
    let (exports, _) = parse_cjs_exports(&stmts, "development", false);
    assert_eq!(exports.join(","), "a,b");
}

#[test]
fn reset_replaces_earlier_discoveries() {
    let stmts = vec![
        exports_member_assign("exports", "early", ast::Expr::Lit(ast::Lit::Num(1u64))),
        module_exports_assign(object_literal(&["replaced"])),
        exports_member_assign("exports", "late", ast::Expr::Lit(ast::Lit::Num(2u64))),
    ];
    let (exports, _) = parse_cjs_exports(&stmts, "development", false);
    assert_eq!(exports.join(","), "replaced,late");
}

#[test]
fn reset_to_reexport_clears_exports() {
    let stmts = vec![
        exports_member_assign("exports", "early", ast::Expr::Lit(ast::Lit::Num(1u64))),
        module_exports_assign(require_call("./other")),
    ];
    let (exports, reexports) = parse_cjs_exports(&stmts, "development", false);
    assert_eq!(exports.join(","), "");
    assert_eq!(reexports.join(","), "./other");
}

#[test]
fn invoked_reexport_carries_call_suffix() {
    let stmts = vec![module_exports_assign(ast::Expr::Call(ast::CallData {
        callee: Some(Box::new(require_call("lib"))),
        args: Vec::new(),
    }))];
    let (_, reexports) = parse_cjs_exports(&stmts, "development", false);
    assert_eq!(reexports.join(","), "lib()");
}

#[test]
fn discovery_order_is_kept() {
    let stmts = vec![
        exports_member_assign("exports", "zebra", ast::Expr::Lit(ast::Lit::Num(1u64))),
        exports_member_assign("exports", "apple", ast::Expr::Lit(ast::Lit::Num(1u64))),
        exports_member_assign("exports", "mango", ast::Expr::Lit(ast::Lit::Num(1u64))),
    ];
    let (exports, _) = parse_cjs_exports(&stmts, "development", false);
    assert_eq!(exports.join(","), "zebra,apple,mango");
}

#[test]
fn name_set_insert_keeps_order_and_dedups() {
    let mut s = NameSet::new();
    s.insert("c".to_string());
    s.insert("a".to_string());
    s.insert("c".to_string());
    s.insert("b".to_string());
    assert_eq!(s.len(), 3);
    assert!(s.contains_name("a"));
    assert!(!s.contains_name("d"));
    let names = s.into_names();
    assert_eq!(names.join(","), "c,a,b");
}

#[test]
fn name_set_clear_empties() {
    let mut s = NameSet::new();
    s.insert("a".to_string());
    s.clear();
    assert_eq!(s.len(), 0);
    assert!(!s.contains_name("a"));
    let names = s.into_names();
    assert_eq!(names.join(","), "");
}

fn var_decl(name: &str, init: ast::Expr) -> ast::Stmt {
    ast::Stmt::Decl(ast::Decl::Var(vec![ast::VarDeclarator {
        name: ast::Pat::Ident(name.to_string()),
        init: Some(Box::new(init)),
    }]))
}

fn define_property(target: ast::Expr, key: ast::Expr, descriptor_key: &str) -> ast::Stmt {
    let descriptor = ast::Expr::Object(Rc::new(vec![ast::PropOrSpread::Prop(
        ast::Prop::KeyValue {
            key: ast::PropName::Ident(descriptor_key.to_string()),
            value: Rc::new(ast::Expr::Lit(ast::Lit::Num(1u64))),
        },
    )]));
    ast::Stmt::Expr(Box::new(ast::Expr::Call(ast::CallData {
        callee: Some(Box::new(ast::Expr::Member {
            obj: Box::new(ast::Expr::Ident("Object".to_string())),
            prop: ast::MemberProp::Ident("defineProperty".to_string()),
        })),
        args: vec![
            ast::ExprOrSpread { spread: false, expr: Box::new(target) },
            ast::ExprOrSpread { spread: false, expr: Box::new(key) },
            ast::ExprOrSpread { spread: false, expr: Box::new(descriptor) },
        ],
    })))
}

#[test]
fn alias_chain_resolves_to_literal() {
    let stmts = vec![
        var_decl("a", ast::Expr::Lit(ast::Lit::Str("k".to_string()))),
        var_decl("b", ast::Expr::Ident("a".to_string())),
        var_decl("c", ast::Expr::Ident("b".to_string())),
        define_property(
            ast::Expr::Ident("exports".to_string()),
            ast::Expr::Ident("c".to_string()),
            "value",
        ),
    ];
    let (exports, _) = parse_cjs_exports(&stmts, "development", false);
    assert_eq!(exports.join(","), "k");
}

#[test]
fn cyclic_aliases_terminate_with_nothing() {
    let stmts = vec![
        var_decl("a", ast::Expr::Ident("b".to_string())),
        var_decl("b", ast::Expr::Ident("c".to_string())),
        var_decl("c", ast::Expr::Ident("a".to_string())),
        ast::Stmt::If {
            test: Box::new(ast::Expr::Ident("a".to_string())),
            cons: Box::new(module_exports_assign(object_literal(&["foo"]))),
            alt: None,
        },
    ];
    let (exports, reexports) = parse_cjs_exports(&stmts, "development", false);
    assert_eq!(exports.join(","), "");
    assert_eq!(reexports.join(","), "");
}

#[test]
fn unrecognized_replacement_clears_both_sets() {
    let stmts = vec![
        exports_member_assign("exports", "early", ast::Expr::Lit(ast::Lit::Num(1u64))),
        module_exports_assign(ast::Expr::Ident("mystery".to_string())),
    ];
    let (exports, reexports) = parse_cjs_exports(&stmts, "development", false);
    assert_eq!(exports.join(","), "");
    assert_eq!(reexports.join(","), "");
}

#[test]
fn bare_arrow_resolves_as_function_value() {
    let arrow = ast::Expr::Arrow(ast::ArrowData {
        params: Vec::new(),
        body: Rc::new(vec![ast::Stmt::Return(Some(Box::new(object_literal(&["foo"]))))]),
    });
    let stmts = vec![module_exports_assign(arrow)];
    let (exports, _) = parse_cjs_exports(&stmts, "development", true);
    assert_eq!(exports.join(","), "foo");
}

#[test]
fn define_property_on_module_resets_only_for_exports_key() {
    let stmts = vec![
        exports_member_assign("exports", "kept", ast::Expr::Lit(ast::Lit::Num(1u64))),
        define_property(
            ast::Expr::Ident("module".to_string()),
            ast::Expr::Lit(ast::Lit::Str("other".to_string())),
            "value",
        ),
    ];
    let (exports, _) = parse_cjs_exports(&stmts, "development", false);
    assert_eq!(exports.join(","), "kept");
}

#[test]
fn assignment_to_exports_identifier_resets() {
    let stmts = vec![
        exports_member_assign("exports", "early", ast::Expr::Lit(ast::Lit::Num(1u64))),
        ast::Stmt::Expr(Box::new(ast::Expr::Assign(ast::AssignData {
            plain: true,
            left: ast::AssignTarget::Ident("exports".to_string()),
            right: Box::new(require_call("lib")),
        }))),
    ];
    let (exports, reexports) = parse_cjs_exports(&stmts, "development", false);
    assert_eq!(exports.join(","), "");
    assert_eq!(reexports.join(","), "lib");
}

#[test]
fn unrecognized_statements_contribute_nothing() {
    let stmts = vec![
        ast::Stmt::Other,
        ast::Stmt::Expr(Box::new(ast::Expr::Other)),
        exports_member_assign("exports", "only", ast::Expr::Lit(ast::Lit::Num(1u64))),
    ];
    let (exports, reexports) = parse_cjs_exports(&stmts, "development", false);
    assert_eq!(exports.join(","), "only");
    assert_eq!(reexports.join(","), "");
}
