use global_removal::ast::{
    Action, Command, Expr, FuncType, FunctionDecl, Literal, ResolvedVar, Rule, Schema, Sort,
    Span, Symbol, TypeInfo,
};
use global_removal::remove_globals::{
    remove_globals_action, remove_globals_cmd, remove_globals_expr, replace_global_var,
};
use global_removal::remove_globals;

const X: Symbol = Symbol(1);
const Y: Symbol = Symbol(2);
const ADD: Symbol = Symbol(3);
const RULE: Symbol = Symbol(4);
const RULESET: Symbol = Symbol(5);
const F: Symbol = Symbol(6);
const I64: Sort = Sort { name: Symbol(100) };
const BOOL: Sort = Sort { name: Symbol(101) };
const STRING: Sort = Sort { name: Symbol(102) };
const UNIT: Sort = Sort { name: Symbol(103) };
const SPAN: Span = Span { start: 0, end: 9 };

fn types() -> TypeInfo {
    TypeInfo { int_sort: I64, bool_sort: BOOL, string_sort: STRING, unit_sort: UNIT }
}

fn lit_int(n: i64) -> Expr {
    Expr::Lit(Literal::Int(n))
}

fn var(name: Symbol, sort: Sort) -> Expr {
    Expr::Var(ResolvedVar { name, sort })
}

fn global_sig(name: Symbol, sort: Sort) -> FuncType {
    FuncType { name, input: vec![], output: sort, is_datatype: false, has_default: false }
}

fn global_call(name: Symbol, sort: Sort) -> Expr {
    Expr::Call(global_sig(name, sort), vec![])
}

fn add_sig() -> FuncType {
    FuncType { name: ADD, input: vec![I64, I64], output: I64, is_datatype: false, has_default: false }
}

fn add(a: Expr, b: Expr) -> Expr {
    Expr::Call(add_sig(), vec![a, b])
}

fn global_let(name: Symbol, e: Expr) -> Command {
    Command::CoreAction(Action::Let(SPAN, name, e))
}

fn global_decl(name: Symbol, sort: Sort) -> Command {
    Command::Function(FunctionDecl {
        name,
        schema: Schema { input: vec![], output: sort.name },
        default: None,
        merge: None,
        merge_action: vec![],
        cost: None,
        unextractable: true,
    })
}

fn global_assign(name: Symbol, sort: Sort, e: Expr) -> Command {
    Command::CoreAction(Action::Assign(SPAN, global_sig(name, sort), vec![], e))
}

fn double_x_program() -> Vec<Command> {
    vec![
        global_let(X, lit_int(3)),
        Command::CoreAction(Action::Expr(SPAN, add(var(X, I64), var(X, I64)))),
    ]
}

#[test]
fn let_becomes_function_and_assignment() {
    let out = remove_globals(&types(), double_x_program());
    let expected = vec![
        global_decl(X, I64),
        global_assign(X, I64, lit_int(3)),
        Command::CoreAction(Action::Expr(SPAN, add(global_call(X, I64), global_call(X, I64)))),
    ];
    assert_eq!(out, expected);
}

#[test]
fn rule_body_reference_is_rewritten() {
    let rule = Command::Rule(Rule {
        name: RULE,
        ruleset: RULESET,
        body: vec![add(var(Y, I64), lit_int(1))],
        head: vec![Action::Union(SPAN, var(Y, I64), lit_int(2))],
    });
    let out = remove_globals(&types(), vec![rule]);
    let expected = vec![Command::Rule(Rule {
        name: RULE,
        ruleset: RULESET,
        body: vec![add(global_call(Y, I64), lit_int(1))],
        head: vec![Action::Union(SPAN, global_call(Y, I64), lit_int(2))],
    })];
    assert_eq!(out, expected);
}

#[test]
fn initializer_reference_to_earlier_global() {
    let prog = vec![global_let(X, lit_int(1)), global_let(Y, add(var(X, I64), lit_int(1)))];
    let out = remove_globals(&types(), prog);
    let expected = vec![
        global_decl(X, I64),
        global_assign(X, I64, lit_int(1)),
        global_decl(Y, I64),
        global_assign(Y, I64, add(global_call(X, I64), lit_int(1))),
    ];
    assert_eq!(out, expected);
}

#[test]
fn output_length_is_twice_lets_plus_others() {
    let prog = vec![
        Command::Push(1),
        global_let(X, lit_int(1)),
        Command::Check(SPAN, vec![var(X, I64)]),
        global_let(Y, Expr::Lit(Literal::Bool(true))),
        Command::Pop(1),
    ];
    let out = remove_globals(&types(), prog);
    assert_eq!(out.len(), 2 * 2 + 3);
    assert_eq!(out[0], Command::Push(1));
    assert_eq!(out[1], global_decl(X, I64));
    assert_eq!(out[2], global_assign(X, I64, lit_int(1)));
    assert_eq!(out[3], Command::Check(SPAN, vec![global_call(X, I64)]));
    assert_eq!(out[4], global_decl(Y, BOOL));
    assert_eq!(out[5], global_assign(Y, BOOL, Expr::Lit(Literal::Bool(true))));
    assert_eq!(out[6], Command::Pop(1));
}

#[test]
fn empty_program_stays_empty() {
    let out = remove_globals(&types(), vec![]);
    assert!(out.is_empty());
}

#[test]
fn second_run_changes_nothing() {
    let once = remove_globals(&types(), double_x_program());
    let twice = remove_globals(&types(), remove_globals(&types(), double_x_program()));
    assert_eq!(once, twice);
}

#[test]
fn global_sort_comes_from_the_value() {
    let cases = vec![
        (Expr::Lit(Literal::Str(Symbol(9))), STRING),
        (Expr::Lit(Literal::Unit), UNIT),
        (Expr::Lit(Literal::Bool(false)), BOOL),
        (var(Y, BOOL), BOOL),
        (add(lit_int(1), lit_int(2)), I64),
    ];
    for (value, sort) in cases {
        let expected_value = remove_globals_expr(&types(), value_copy(&value));
        let out = remove_globals_cmd(&types(), global_let(X, value));
        assert_eq!(out, vec![global_decl(X, sort), global_assign(X, sort, expected_value)]);
    }
}

fn value_copy(e: &Expr) -> Expr {
    match e {
        Expr::Lit(l) => Expr::Lit(*l),
        Expr::Var(v) => Expr::Var(*v),
        Expr::Call(f, args) => Expr::Call(f.clone(), args.iter().map(value_copy).collect()),
    }
}

#[test]
fn function_declaration_expressions_are_rewritten() {
    let decl = Command::Function(FunctionDecl {
        name: F,
        schema: Schema { input: vec![I64.name], output: I64.name },
        default: Some(var(X, I64)),
        merge: Some(add(var(X, I64), lit_int(0))),
        merge_action: vec![Action::Expr(SPAN, var(Y, I64))],
        cost: Some(7),
        unextractable: false,
    });
    let out = remove_globals_cmd(&types(), decl);
    let expected = Command::Function(FunctionDecl {
        name: F,
        schema: Schema { input: vec![I64.name], output: I64.name },
        default: Some(global_call(X, I64)),
        merge: Some(add(global_call(X, I64), lit_int(0))),
        merge_action: vec![Action::Expr(SPAN, global_call(Y, I64))],
        cost: Some(7),
        unextractable: false,
    });
    assert_eq!(out, vec![expected]);
}

#[test]
fn assignment_action_keeps_target_and_rewrites_expressions() {
    let target = FuncType { name: F, input: vec![I64], output: I64, is_datatype: false, has_default: true };
    let action = Action::Assign(SPAN, target.clone(), vec![var(X, I64)], add(var(Y, I64), lit_int(1)));
    let out = remove_globals_action(&types(), action);
    let expected = Action::Assign(SPAN, target, vec![global_call(X, I64)], add(global_call(Y, I64), lit_int(1)));
    assert_eq!(out, expected);
}

#[test]
fn nested_let_and_panic_are_kept() {
    let out = remove_globals_action(&types(), Action::Let(SPAN, Y, var(X, I64)));
    assert_eq!(out, Action::Let(SPAN, Y, global_call(X, I64)));
    let out = remove_globals_action(&types(), Action::Panic(SPAN, Symbol(42)));
    assert_eq!(out, Action::Panic(SPAN, Symbol(42)));
}

#[test]
fn node_rule_only_touches_variables() {
    assert_eq!(replace_global_var(&types(), var(X, BOOL)), global_call(X, BOOL));
    assert_eq!(replace_global_var(&types(), lit_int(5)), lit_int(5));
    let call = add(var(X, I64), lit_int(1));
    assert_eq!(replace_global_var(&types(), call), add(var(X, I64), lit_int(1)));
}

#[test]
fn deep_references_are_all_rewritten() {
    let e = add(add(var(X, I64), var(Y, I64)), add(lit_int(1), var(X, I64)));
    let out = remove_globals_expr(&types(), e);
    let expected = add(
        add(global_call(X, I64), global_call(Y, I64)),
        add(lit_int(1), global_call(X, I64)),
    );
    assert_eq!(out, expected);
}

#[test]
fn literal_and_expression_sorts() {
    let ti = types();
    assert_eq!(ti.infer_literal(&Literal::Int(-4)), I64);
    assert_eq!(ti.infer_literal(&Literal::Unit), UNIT);
    assert_eq!(var(Y, STRING).output_type(&ti), STRING);
    assert_eq!(add(lit_int(1), lit_int(2)).output_type(&ti), I64);
    assert_eq!(I64.name(), Symbol(100));
}
