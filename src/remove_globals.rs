//! Rewriting of global bindings into nullary functions.
use vstd::prelude::*;
use crate::ast::{Action, Command, Expr, FuncType, FunctionDecl, Rule, Schema, Sort, Symbol, TypeInfo};

verus! {

/// `f` is the signature of the nullary function that stores global `name` of sort `sort`.
pub open spec fn is_global_sig(f: FuncType, name: Symbol, sort: Sort) -> bool {
    &&& f.name == name
    &&& f.input@.len() == 0
    &&& f.output == sort
    &&& !f.is_datatype
    &&& !f.has_default
}

/// `e` is a call with no arguments of the function that stores global `name`.
pub open spec fn is_global_call(e: Expr, name: Symbol, sort: Sort) -> bool {
    match e {
        Expr::Call(f, args) => is_global_sig(f, name, sort) && args@.len() == 0,
        _ => false,
    }
}

/// What the per-node rule makes of one node: a variable becomes a nullary
/// call, any other node is kept.
pub open spec fn node_replaced(e: Expr, r: Expr) -> bool {
    match e {
        Expr::Var(v) => is_global_call(r, v.name, v.sort),
        _ => r == e,
    }
}

/// `r` is `e` with every variable reference, at any depth, turned into a
/// nullary call and everything else kept.
pub open spec fn expr_rewritten(e: Expr, r: Expr) -> bool
    decreases e,
{
    match e {
        Expr::Lit(lit) => r == Expr::Lit(lit),
        Expr::Var(v) => is_global_call(r, v.name, v.sort),
        Expr::Call(f, args) => match r {
            Expr::Call(g, rargs) => {
                &&& g == f
                &&& rargs@.len() == args@.len()
                &&& forall|i: int|
                    0 <= i < args@.len() ==> expr_rewritten(#[trigger] args@[i], rargs@[i])
            },
            _ => false,
        },
    }
}

/// Element by element, `r` is `s` rewritten.
pub open spec fn exprs_rewritten(s: Seq<Expr>, r: Seq<Expr>) -> bool {
    &&& r.len() == s.len()
    &&& forall|i: int| 0 <= i < s.len() ==> #[trigger] expr_rewritten(s[i], r[i])
}

/// Element by element, `rel` relates `s` to `t`.
pub open spec fn exprs_rel(s: Seq<Expr>, t: Seq<Expr>, rel: spec_fn(Expr, Expr) -> bool) -> bool {
    &&& t.len() == s.len()
    &&& forall|i: int| 0 <= i < s.len() ==> #[trigger] rel(s[i], t[i])
}

/// Both absent, or both present and related by `rel`.
pub open spec fn opt_rel(a: Option<Expr>, b: Option<Expr>, rel: spec_fn(Expr, Expr) -> bool) -> bool {
    match a {
        None => b is None,
        Some(x) => b matches Some(y) && rel(x, y),
    }
}

/// `b` is `a` with each embedded expression related by `rel` to the one in
/// the same place, and every other part kept.
pub open spec fn action_rel(a: Action, b: Action, rel: spec_fn(Expr, Expr) -> bool) -> bool {
    match a {
        Action::Let(span, name, e) => b matches Action::Let(span2, name2, e2) && span2 == span
            && name2 == name && rel(e, e2),
        Action::Assign(span, f, args, e) => b matches Action::Assign(span2, f2, args2, e2)
            && span2 == span && f2 == f && exprs_rel(args@, args2@, rel) && rel(e, e2),
        Action::Union(span, x, y) => b matches Action::Union(span2, x2, y2) && span2 == span
            && rel(x, x2) && rel(y, y2),
        Action::Expr(span, e) => b matches Action::Expr(span2, e2) && span2 == span && rel(e, e2),
        Action::Panic(span, msg) => b == a,
    }
}

/// Element by element, `action_rel` relates `s` to `t`.
pub open spec fn actions_rel(s: Seq<Action>, t: Seq<Action>, rel: spec_fn(Expr, Expr) -> bool) -> bool {
    &&& t.len() == s.len()
    &&& forall|i: int| 0 <= i < s.len() ==> #[trigger] action_rel(s[i], t[i], rel)
}

/// `d` is `c` of the same kind, with each embedded expression related by
/// `rel` to the one in the same place, and every other part kept.
pub open spec fn command_rel(c: Command, d: Command, rel: spec_fn(Expr, Expr) -> bool) -> bool {
    match c {
        Command::CoreAction(a) => d matches Command::CoreAction(b) && action_rel(a, b, rel),
        Command::Function(f) => d matches Command::Function(g) && {
            &&& g.name == f.name
            &&& g.schema == f.schema
            &&& opt_rel(f.default, g.default, rel)
            &&& opt_rel(f.merge, g.merge, rel)
            &&& actions_rel(f.merge_action@, g.merge_action@, rel)
            &&& g.cost == f.cost
            &&& g.unextractable == f.unextractable
        },
        Command::Rule(r) => d matches Command::Rule(q) && {
            &&& q.name == r.name
            &&& q.ruleset == r.ruleset
            &&& exprs_rel(r.body@, q.body@, rel)
            &&& actions_rel(r.head@, q.head@, rel)
        },
        Command::Check(span, es) => d matches Command::Check(span2, es2) && span2 == span
            && exprs_rel(es@, es2@, rel),
        Command::Push(_) => d == c,
        Command::Pop(_) => d == c,
    }
}

/// The expression relation of this pass.
pub open spec fn rewriting() -> spec_fn(Expr, Expr) -> bool {
    |e: Expr, r: Expr| expr_rewritten(e, r)
}

pub open spec fn action_rewritten(a: Action, b: Action) -> bool {
    action_rel(a, b, rewriting())
}

pub open spec fn actions_rewritten(s: Seq<Action>, t: Seq<Action>) -> bool {
    actions_rel(s, t, rewriting())
}

/// A top-level `let`, which the pass expands into two commands.
pub open spec fn is_global_let(c: Command) -> bool {
    c matches Command::CoreAction(Action::Let(_, _, _))
}

/// How many commands the pass makes of `c`.
pub open spec fn width(c: Command) -> nat {
    if is_global_let(c) { 2 } else { 1 }
}

/// Where the commands made of `p[i]` start in the output.
pub open spec fn offset(p: Seq<Command>, i: int) -> nat
    decreases i,
{
    if i <= 0 { 0 } else { offset(p, i - 1) + width(p[i - 1]) }
}

/// `d` declares the nullary, unextractable function that stores global
/// `name` of sort `sort`, with no default, merge or cost.
pub open spec fn is_global_decl(d: Command, name: Symbol, sort: Sort) -> bool {
    d matches Command::Function(f) && {
        &&& f.name == name
        &&& f.schema.input@.len() == 0
        &&& f.schema.output == sort.name
        &&& f.default is None
        &&& f.merge is None
        &&& f.merge_action@.len() == 0
        &&& f.cost is None
        &&& f.unextractable
    }
}

/// `out` is what the pass makes of the top-level command `c`.
pub open spec fn cmd_rewritten(type_info: TypeInfo, c: Command, out: Seq<Command>) -> bool {
    match c {
        Command::CoreAction(Action::Let(span, name, e)) => {
            let sort = e.output_sort(type_info);
            &&& out.len() == 2
            &&& is_global_decl(out[0], name, sort)
            &&& out[1] matches Command::CoreAction(Action::Assign(span2, f, args, e2))
                && span2 == span && is_global_sig(f, name, sort) && args@.len() == 0
                && expr_rewritten(e, e2)
        },
        _ => out.len() == 1 && command_rel(c, out[0], rewriting()),
    }
}

/// `q` is what the pass makes of the program `p`: the commands made of each
/// command, in the order of `p`.
pub open spec fn program_rewritten(type_info: TypeInfo, p: Seq<Command>, q: Seq<Command>) -> bool {
    &&& q.len() == offset(p, p.len() as int)
    &&& forall|i: int|
        0 <= i < p.len() ==> #[trigger] cmd_rewritten(
            type_info,
            p[i],
            q.subrange(offset(p, i) as int, offset(p, i + 1) as int),
        )
}

/// The signature of the nullary function that stores global `name`.
fn global_sig(name: Symbol, sort: Sort) -> (r: FuncType)
    ensures
        is_global_sig(r, name, sort),
{
    FuncType { name, input: Vec::new(), output: sort, is_datatype: false, has_default: false }
}

/// The rule applied to each node: a variable reference becomes a call with
/// no arguments of the function of the same name; other nodes are kept.
pub fn replace_global_var(_type_info: &TypeInfo, expr: Expr) -> (r: Expr)
    ensures
        node_replaced(expr, r),
{
    match expr {
        Expr::Var(v) => Expr::Call(global_sig(v.name, v.sort), Vec::new()),
        other => other,
    }
}

/// Rewrites every variable reference in `expr`, at any depth.
pub fn remove_globals_expr(type_info: &TypeInfo, expr: Expr) -> (r: Expr)
    ensures
        expr_rewritten(expr, r),
    decreases expr,
{
    let node = match expr {
        Expr::Call(head, args) => {
            let ghost old_args = args;
            proof {
                assert(decreases_to!(expr => expr->Call_1));
            }
            let new_args = remove_globals_exprs(type_info, args);
            assert(expr matches Expr::Call(h, a) && h == head && a == old_args);
            assert(forall|i: int|
                0 <= i < old_args@.len() ==> expr_rewritten(old_args@[i], new_args@[i]));
            Expr::Call(head, new_args)
        },
        other => other,
    };
    replace_global_var(type_info, node)
}

/// Rewrites each expression of `exprs`, keeping their order.
pub fn remove_globals_exprs(type_info: &TypeInfo, exprs: Vec<Expr>) -> (r: Vec<Expr>)
    ensures
        exprs_rewritten(exprs@, r@),
        exprs_rel(exprs@, r@, rewriting()),
    decreases exprs,
{
    let ghost old_exprs = exprs;
    let mut out: Vec<Expr> = Vec::new();
    for e in it: exprs.into_iter()
        invariant
            old_exprs == exprs,
            it.seq() == old_exprs@,
            out@.len() == it.index(),
            forall|i: int| 0 <= i < it.index() ==> #[trigger] expr_rewritten(old_exprs@[i], out@[i]),
    {
        out.push(remove_globals_expr(type_info, e));
    }
    assert(forall|i: int| 0 <= i < out@.len() ==> #[trigger] rewriting()(exprs@[i], out@[i])
        == expr_rewritten(exprs@[i], out@[i]));
    out
}

fn remove_globals_opt(type_info: &TypeInfo, expr: Option<Expr>) -> (r: Option<Expr>)
    ensures
        opt_rel(expr, r, rewriting()),
{
    match expr {
        Some(e) => Some(remove_globals_expr(type_info, e)),
        None => None,
    }
}

/// Rewrites every expression embedded in `action`; its kind and other parts
/// are kept.
pub fn remove_globals_action(type_info: &TypeInfo, action: Action) -> (r: Action)
    ensures
        action_rewritten(action, r),
{
    match action {
        Action::Let(span, name, e) => Action::Let(span, name, remove_globals_expr(type_info, e)),
        Action::Assign(span, f, args, e) => {
            let args = remove_globals_exprs(type_info, args);
            Action::Assign(span, f, args, remove_globals_expr(type_info, e))
        },
        Action::Union(span, x, y) => {
            let x = remove_globals_expr(type_info, x);
            Action::Union(span, x, remove_globals_expr(type_info, y))
        },
        Action::Expr(span, e) => Action::Expr(span, remove_globals_expr(type_info, e)),
        Action::Panic(span, msg) => Action::Panic(span, msg),
    }
}

fn remove_globals_actions(type_info: &TypeInfo, actions: Vec<Action>) -> (r: Vec<Action>)
    ensures
        actions_rewritten(actions@, r@),
{
    let ghost old_actions = actions@;
    let mut out: Vec<Action> = Vec::new();
    for a in it: actions.into_iter()
        invariant
            it.seq() == old_actions,
            out@.len() == it.index(),
            forall|i: int|
                0 <= i < it.index() ==> #[trigger] action_rel(old_actions[i], out@[i], rewriting()),
    {
        out.push(remove_globals_action(type_info, a));
    }
    out
}

/// Rewrites every expression embedded in a command that is not a global
/// `let`; its kind and other parts are kept.
fn remove_globals_in_command(type_info: &TypeInfo, cmd: Command) -> (r: Command)
    ensures
        command_rel(cmd, r, rewriting()),
{
    match cmd {
        Command::CoreAction(a) => Command::CoreAction(remove_globals_action(type_info, a)),
        Command::Function(f) => {
            let default = remove_globals_opt(type_info, f.default);
            let merge = remove_globals_opt(type_info, f.merge);
            let merge_action = remove_globals_actions(type_info, f.merge_action);
            Command::Function(
                FunctionDecl {
                    name: f.name,
                    schema: f.schema,
                    default,
                    merge,
                    merge_action,
                    cost: f.cost,
                    unextractable: f.unextractable,
                },
            )
        },
        Command::Rule(rule) => {
            let body = remove_globals_exprs(type_info, rule.body);
            let head = remove_globals_actions(type_info, rule.head);
            Command::Rule(Rule { name: rule.name, ruleset: rule.ruleset, body, head })
        },
        Command::Check(span, es) => Command::Check(span, remove_globals_exprs(type_info, es)),
        Command::Push(n) => Command::Push(n),
        Command::Pop(n) => Command::Pop(n),
    }
}

/// Rewrites one top-level command. A global `let` becomes the declaration of
/// a nullary function followed by an assignment of the rewritten value to
/// it; any other command stays one command, with its expressions rewritten.
pub fn remove_globals_cmd(type_info: &TypeInfo, cmd: Command) -> (r: Vec<Command>)
    ensures
        cmd_rewritten(*type_info, cmd, r@),
{
    let mut out: Vec<Command> = Vec::new();
    match cmd {
        Command::CoreAction(Action::Let(span, name, expr)) => {
            let ty = expr.output_type(type_info);
            let decl = FunctionDecl {
                name,
                schema: Schema { input: Vec::new(), output: ty.name() },
                default: None,
                merge: None,
                merge_action: Vec::new(),
                cost: None,
                unextractable: true,
            };
            let value = remove_globals_expr(type_info, expr);
            out.push(Command::Function(decl));
            out.push(
                Command::CoreAction(Action::Assign(span, global_sig(name, ty), Vec::new(), value)),
            );
        },
        other => {
            out.push(remove_globals_in_command(type_info, other));
        },
    }
    out
}

/// Output positions grow with input positions.
pub proof fn lemma_offset_monotone(p: Seq<Command>, i: int, j: int)
    requires
        0 <= i <= j,
    ensures
        offset(p, i) <= offset(p, j),
    decreases j - i,
{
    if i < j {
        lemma_offset_monotone(p, i, j - 1);
    }
}

/// Removes all globals from a program: every top-level `let` is replaced by
/// a nullary function declaration and an assignment to it, and every
/// variable reference by a call with no arguments. The commands made of each
/// input command appear together, in the order of the input.
pub fn remove_globals(type_info: &TypeInfo, prog: Vec<Command>) -> (r: Vec<Command>)
    ensures
        program_rewritten(*type_info, prog@, r@),
{
    let ghost p = prog@;
    let mut out: Vec<Command> = Vec::new();
    for cmd in it: prog.into_iter()
        invariant
            it.seq() == p,
            it.index() <= p.len(),
            out@.len() == offset(p, it.index() as int),
            forall|i: int|
                0 <= i < it.index() ==> #[trigger] cmd_rewritten(
                    *type_info,
                    p[i],
                    out@.subrange(offset(p, i) as int, offset(p, i + 1) as int),
                ),
    {
        let ghost k = it.index() as int;
        let ghost before = out@;
        let mut made = remove_globals_cmd(type_info, cmd);
        let ghost piece = made@;
        proof {
            assert(made@.len() == width(p[k]));
        }
        out.append(&mut made);
        proof {
            assert(out@.subrange(offset(p, k) as int, offset(p, k + 1) as int) =~= piece);
            assert forall|i: int| 0 <= i < k implies #[trigger] cmd_rewritten(
                *type_info,
                p[i],
                out@.subrange(offset(p, i) as int, offset(p, i + 1) as int),
            ) by {
                lemma_offset_monotone(p, i + 1, k);
                assert(out@.subrange(offset(p, i) as int, offset(p, i + 1) as int)
                    =~= before.subrange(offset(p, i) as int, offset(p, i + 1) as int));
            }
        }
    }
    out
}

} // verus!
