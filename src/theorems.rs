//! Facts about the pass that relate several of its results.
use vstd::prelude::*;
use crate::ast::{Action, Command, Expr, Symbol, TypeInfo};
use crate::remove_globals::{
    action_rel, action_rewritten, actions_rel, cmd_rewritten, command_rel, expr_rewritten,
    exprs_rel, exprs_rewritten, is_global_decl, is_global_let, lemma_offset_monotone, offset,
    opt_rel, program_rewritten, rewriting, width,
};

verus! {

/// How many of the first `i` commands of `p` are top-level `let`s.
pub open spec fn lets_before(p: Seq<Command>, i: int) -> nat
    decreases i,
{
    if i <= 0 {
        0
    } else {
        lets_before(p, i - 1) + if is_global_let(p[i - 1]) { 1nat } else { 0nat }
    }
}

proof fn lemma_offset_counts_lets(p: Seq<Command>, i: int)
    requires
        0 <= i,
    ensures
        offset(p, i) == i + lets_before(p, i),
        lets_before(p, i) <= i,
    decreases i,
{
    if i > 0 {
        lemma_offset_counts_lets(p, i - 1);
    }
}

/// The input command whose commands hold position `j` of the output.
proof fn lemma_segment(p: Seq<Command>, n: int, j: int) -> (i: int)
    requires
        0 <= n <= p.len(),
        0 <= j < offset(p, n),
    ensures
        0 <= i < n,
        offset(p, i) <= j < offset(p, i + 1),
    decreases n,
{
    if j >= offset(p, n - 1) {
        n - 1
    } else {
        lemma_segment(p, n - 1, j)
    }
}

/// With `k` top-level `let`s among the commands of `p`, the output has
/// `2k` commands for them and one for each of the others; the commands made
/// of each input command follow those made of the commands before it.
pub proof fn cardinality(type_info: TypeInfo, p: Seq<Command>, q: Seq<Command>)
    requires
        program_rewritten(type_info, p, q),
    ensures
        lets_before(p, p.len() as int) <= p.len(),
        q.len() == 2 * lets_before(p, p.len() as int) + (p.len() - lets_before(
            p,
            p.len() as int,
        )),
        forall|i: int, j: int|
            0 <= i < j < p.len() ==> #[trigger] offset(p, i) + width(p[i]) <= #[trigger] offset(
                p,
                j,
            ),
{
    lemma_offset_counts_lets(p, p.len() as int);
    assert forall|i: int, j: int| 0 <= i < j < p.len() implies #[trigger] offset(p, i) + width(
        p[i],
    ) <= #[trigger] offset(p, j) by {
        lemma_offset_monotone(p, i + 1, j);
    }
}

/// No variable reference occurs in `e`.
pub open spec fn expr_clean(e: Expr) -> bool
    decreases e,
{
    match e {
        Expr::Lit(_) => true,
        Expr::Var(_) => false,
        Expr::Call(_, args) => forall|i: int|
            0 <= i < args@.len() ==> expr_clean(#[trigger] args@[i]),
    }
}

pub open spec fn exprs_clean(s: Seq<Expr>) -> bool {
    forall|i: int| 0 <= i < s.len() ==> #[trigger] expr_clean(s[i])
}

/// `a` is no `let` and holds no variable reference.
pub open spec fn action_clean(a: Action) -> bool {
    match a {
        Action::Let(_, _, _) => false,
        Action::Assign(_, _, args, e) => exprs_clean(args@) && expr_clean(e),
        Action::Union(_, x, y) => expr_clean(x) && expr_clean(y),
        Action::Expr(_, e) => expr_clean(e),
        Action::Panic(_, _) => true,
    }
}

pub open spec fn actions_clean(s: Seq<Action>) -> bool {
    forall|i: int| 0 <= i < s.len() ==> #[trigger] action_clean(s[i])
}

pub open spec fn opt_clean(e: Option<Expr>) -> bool {
    match e {
        Some(x) => expr_clean(x),
        None => true,
    }
}

/// No `let` action and no variable reference occurs anywhere in `c`.
pub open spec fn command_clean(c: Command) -> bool {
    match c {
        Command::CoreAction(a) => action_clean(a),
        Command::Function(f) => opt_clean(f.default) && opt_clean(f.merge) && actions_clean(
            f.merge_action@,
        ),
        Command::Rule(r) => exprs_clean(r.body@) && actions_clean(r.head@),
        Command::Check(_, es) => exprs_clean(es@),
        Command::Push(_) => true,
        Command::Pop(_) => true,
    }
}

pub open spec fn no_let(s: Seq<Action>) -> bool {
    forall|i: int| 0 <= i < s.len() ==> !(#[trigger] s[i] is Let)
}

/// Every `let` of `c`, if any, stands at top level.
pub open spec fn lets_at_top(c: Command) -> bool {
    match c {
        Command::Function(f) => no_let(f.merge_action@),
        Command::Rule(r) => no_let(r.head@),
        _ => true,
    }
}

pub proof fn lemma_rewritten_expr_clean(e: Expr, r: Expr)
    requires
        expr_rewritten(e, r),
    ensures
        expr_clean(r),
    decreases e,
{
    if let Expr::Call(f, args) = e {
        if let Expr::Call(g, rargs) = r {
            assert(rargs@.len() == args@.len());
            assert forall|i: int| 0 <= i < rargs@.len() implies expr_clean(#[trigger] rargs@[i]) by {
                assert(expr_rewritten(args@[i], rargs@[i]));
                lemma_rewritten_expr_clean(args@[i], rargs@[i]);
            }
        }
    }
}

proof fn lemma_rewritten_exprs_clean(s: Seq<Expr>, t: Seq<Expr>)
    requires
        exprs_rel(s, t, rewriting()),
    ensures
        exprs_clean(t),
{
    assert forall|i: int| 0 <= i < t.len() implies #[trigger] expr_clean(t[i]) by {
        assert(rewriting()(s[i], t[i]));
        lemma_rewritten_expr_clean(s[i], t[i]);
    }
}

proof fn lemma_rewritten_action_clean(a: Action, b: Action)
    requires
        action_rewritten(a, b),
        !(a is Let),
    ensures
        action_clean(b),
{
    match a {
        Action::Assign(_, _, args, e) => {
            lemma_rewritten_exprs_clean(args@, b->Assign_2@);
            lemma_rewritten_expr_clean(e, b->Assign_3);
        },
        Action::Union(_, x, y) => {
            lemma_rewritten_expr_clean(x, b->Union_1);
            lemma_rewritten_expr_clean(y, b->Union_2);
        },
        Action::Expr(_, e) => {
            lemma_rewritten_expr_clean(e, b->Expr_1);
        },
        _ => {},
    }
}

proof fn lemma_rewritten_actions_clean(s: Seq<Action>, t: Seq<Action>)
    requires
        actions_rel(s, t, rewriting()),
        no_let(s),
    ensures
        actions_clean(t),
{
    assert forall|i: int| 0 <= i < t.len() implies #[trigger] action_clean(t[i]) by {
        assert(action_rel(s[i], t[i], rewriting()));
        lemma_rewritten_action_clean(s[i], t[i]);
    }
}

proof fn lemma_rewritten_opt_clean(a: Option<Expr>, b: Option<Expr>)
    requires
        opt_rel(a, b, rewriting()),
    ensures
        opt_clean(b),
{
    if let Some(x) = a {
        lemma_rewritten_expr_clean(x, b->Some_0);
    }
}

/// Every command made of `c` is clean.
proof fn lemma_rewritten_cmd_clean(type_info: TypeInfo, c: Command, out: Seq<Command>, j: int)
    requires
        cmd_rewritten(type_info, c, out),
        lets_at_top(c),
        0 <= j < out.len(),
    ensures
        command_clean(out[j]),
{
    match c {
        Command::CoreAction(Action::Let(_, _, e)) => {
            if j == 1 {
                lemma_rewritten_expr_clean(e, out[1]->CoreAction_0->Assign_3);
            }
        },
        Command::CoreAction(a) => {
            lemma_rewritten_action_clean(a, out[0]->CoreAction_0);
        },
        Command::Function(f) => {
            let g = out[0]->Function_0;
            lemma_rewritten_opt_clean(f.default, g.default);
            lemma_rewritten_opt_clean(f.merge, g.merge);
            lemma_rewritten_actions_clean(f.merge_action@, g.merge_action@);
        },
        Command::Rule(r) => {
            let q = out[0]->Rule_0;
            lemma_rewritten_exprs_clean(r.body@, q.body@);
            lemma_rewritten_actions_clean(r.head@, q.head@);
        },
        Command::Check(_, es) => {
            lemma_rewritten_exprs_clean(es@, out[0]->Check_1@);
        },
        _ => {},
    }
}

/// After the pass no `let` action and no variable reference is left
/// anywhere in the program, provided every `let` of the input stood at top
/// level.
pub proof fn no_residual_globals(type_info: TypeInfo, p: Seq<Command>, q: Seq<Command>)
    requires
        program_rewritten(type_info, p, q),
        forall|i: int| 0 <= i < p.len() ==> #[trigger] lets_at_top(p[i]),
    ensures
        forall|j: int| 0 <= j < q.len() ==> #[trigger] command_clean(q[j]),
{
    assert forall|j: int| 0 <= j < q.len() implies #[trigger] command_clean(q[j]) by {
        let i = lemma_segment(p, p.len() as int, j);
        lemma_offset_monotone(p, i + 1, p.len() as int);
        let out = q.subrange(offset(p, i) as int, offset(p, i + 1) as int);
        assert(cmd_rewritten(type_info, p[i], out));
        lemma_rewritten_cmd_clean(type_info, p[i], out, j - offset(p, i));
        assert(out[j - offset(p, i)] == q[j]);
    }
}

/// `c` is a top-level `let` of `name`.
pub open spec fn is_let_of(c: Command, name: Symbol) -> bool {
    c matches Command::CoreAction(Action::Let(_, n, _)) && n == name
}

/// `c` is a top-level assignment to function `name` at no arguments.
pub open spec fn assigns_nullary(c: Command, name: Symbol) -> bool {
    c matches Command::CoreAction(Action::Assign(_, f, args, _)) && f.name == name && args@.len()
        == 0
}

/// The declaration made of the global `let` of `name` at `p[i]` stands where
/// that `let` stood, and the assignment to `name` follows it at once. Where
/// no other input command binds or assigns `name` at top level, that
/// assignment is the only top-level one to `name` in the output.
pub proof fn pairing(type_info: TypeInfo, p: Seq<Command>, q: Seq<Command>, i: int, name: Symbol)
    requires
        program_rewritten(type_info, p, q),
        0 <= i < p.len(),
        is_let_of(p[i], name),
        forall|k: int|
            0 <= k < p.len() && k != i ==> !is_let_of(#[trigger] p[k], name) && !assigns_nullary(
                p[k],
                name,
            ),
    ensures
        offset(p, i) + 1 < q.len(),
        is_global_decl(q[offset(p, i) as int], name, p[i]->CoreAction_0->Let_2.output_sort(type_info)),
        assigns_nullary(q[offset(p, i) + 1int], name),
        forall|j: int| 0 <= j < q.len() && #[trigger] assigns_nullary(q[j], name) ==> j == offset(p, i) + 1,
{
    lemma_offset_monotone(p, i + 1, p.len() as int);
    let out = q.subrange(offset(p, i) as int, offset(p, i + 1) as int);
    assert(cmd_rewritten(type_info, p[i], out));
    assert(out[0] == q[offset(p, i) as int]);
    assert(out[1] == q[offset(p, i) + 1int]);
    assert forall|j: int| 0 <= j < q.len() && #[trigger] assigns_nullary(q[j], name) implies j == offset(
        p,
        i,
    ) + 1 by {
        let k = lemma_segment(p, p.len() as int, j);
        lemma_offset_monotone(p, k + 1, p.len() as int);
        let seg = q.subrange(offset(p, k) as int, offset(p, k + 1) as int);
        assert(cmd_rewritten(type_info, p[k], seg));
        assert(seg[j - offset(p, k)] == q[j]);
        if k != i {
            assert(!is_let_of(p[k], name) && !assigns_nullary(p[k], name));
            if !is_global_let(p[k]) {
                assert(command_rel(p[k], seg[0], rewriting()));
            }
        }
    }
}

/// Deep structural equality of expressions.
pub open spec fn same_expr(a: Expr, b: Expr) -> bool
    decreases a,
{
    match a {
        Expr::Call(f, args) => b matches Expr::Call(g, bargs) && g == f && bargs@.len()
            == args@.len() && forall|i: int|
            0 <= i < args@.len() ==> same_expr(#[trigger] args@[i], bargs@[i]),
        _ => b == a,
    }
}

pub open spec fn sameness() -> spec_fn(Expr, Expr) -> bool {
    |a: Expr, b: Expr| same_expr(a, b)
}

proof fn lemma_clean_expr_same(e: Expr, r: Expr)
    requires
        expr_clean(e),
        expr_rewritten(e, r),
    ensures
        same_expr(e, r),
    decreases e,
{
    if let Expr::Call(f, args) = e {
        if let Expr::Call(g, rargs) = r {
            assert forall|i: int| 0 <= i < args@.len() implies same_expr(
                #[trigger] args@[i],
                rargs@[i],
            ) by {
                assert(expr_clean(args@[i]));
                assert(expr_rewritten(args@[i], rargs@[i]));
                lemma_clean_expr_same(args@[i], rargs@[i]);
            }
        }
    }
}

proof fn lemma_clean_exprs_same(s: Seq<Expr>, t: Seq<Expr>)
    requires
        exprs_clean(s),
        exprs_rel(s, t, rewriting()),
    ensures
        exprs_rel(s, t, sameness()),
{
    assert forall|i: int| 0 <= i < s.len() implies #[trigger] sameness()(s[i], t[i]) by {
        assert(rewriting()(s[i], t[i]));
        assert(expr_clean(s[i]));
        lemma_clean_expr_same(s[i], t[i]);
    }
}

proof fn lemma_clean_opt_same(a: Option<Expr>, b: Option<Expr>)
    requires
        opt_clean(a),
        opt_rel(a, b, rewriting()),
    ensures
        opt_rel(a, b, sameness()),
{
    if let Some(x) = a {
        lemma_clean_expr_same(x, b->Some_0);
    }
}

proof fn lemma_clean_action_same(a: Action, b: Action)
    requires
        action_clean(a),
        action_rewritten(a, b),
    ensures
        action_rel(a, b, sameness()),
{
    match a {
        Action::Assign(_, _, args, e) => {
            lemma_clean_exprs_same(args@, b->Assign_2@);
            lemma_clean_expr_same(e, b->Assign_3);
        },
        Action::Union(_, x, y) => {
            lemma_clean_expr_same(x, b->Union_1);
            lemma_clean_expr_same(y, b->Union_2);
        },
        Action::Expr(_, e) => {
            lemma_clean_expr_same(e, b->Expr_1);
        },
        _ => {},
    }
}

proof fn lemma_clean_actions_same(s: Seq<Action>, t: Seq<Action>)
    requires
        actions_clean(s),
        actions_rel(s, t, rewriting()),
    ensures
        actions_rel(s, t, sameness()),
{
    assert forall|i: int| 0 <= i < s.len() implies #[trigger] action_rel(s[i], t[i], sameness()) by {
        assert(action_rel(s[i], t[i], rewriting()));
        assert(action_clean(s[i]));
        lemma_clean_action_same(s[i], t[i]);
    }
}

proof fn lemma_clean_command_same(c: Command, d: Command)
    requires
        command_clean(c),
        command_rel(c, d, rewriting()),
    ensures
        command_rel(c, d, sameness()),
{
    match c {
        Command::CoreAction(a) => {
            lemma_clean_action_same(a, d->CoreAction_0);
        },
        Command::Function(f) => {
            let g = d->Function_0;
            lemma_clean_opt_same(f.default, g.default);
            lemma_clean_opt_same(f.merge, g.merge);
            lemma_clean_actions_same(f.merge_action@, g.merge_action@);
        },
        Command::Rule(r) => {
            let q = d->Rule_0;
            lemma_clean_exprs_same(r.body@, q.body@);
            lemma_clean_actions_same(r.head@, q.head@);
        },
        Command::Check(_, es) => {
            lemma_clean_exprs_same(es@, d->Check_1@);
        },
        _ => {},
    }
}

proof fn lemma_offset_without_lets(p: Seq<Command>, i: int)
    requires
        0 <= i <= p.len(),
        forall|k: int| 0 <= k < p.len() ==> !is_global_let(#[trigger] p[k]),
    ensures
        offset(p, i) == i,
    decreases i,
{
    if i > 0 {
        lemma_offset_without_lets(p, i - 1);
    }
}

/// Running the pass again on its output changes nothing: each command comes
/// back of the same kind, with the same parts and structurally equal
/// expressions (provided every `let` of the first input stood at top level).
pub proof fn idempotence(type_info: TypeInfo, p: Seq<Command>, q: Seq<Command>, r: Seq<Command>)
    requires
        program_rewritten(type_info, p, q),
        forall|i: int| 0 <= i < p.len() ==> #[trigger] lets_at_top(p[i]),
        program_rewritten(type_info, q, r),
    ensures
        r.len() == q.len(),
        forall|j: int| 0 <= j < q.len() ==> #[trigger] command_rel(q[j], r[j], sameness()),
{
    no_residual_globals(type_info, p, q);
    assert forall|k: int| 0 <= k < q.len() implies !is_global_let(#[trigger] q[k]) by {
        assert(command_clean(q[k]));
    }
    lemma_offset_without_lets(q, q.len() as int);
    assert forall|j: int| 0 <= j < q.len() implies #[trigger] command_rel(q[j], r[j], sameness()) by {
        lemma_offset_without_lets(q, j);
        lemma_offset_without_lets(q, j + 1);
        let seg = r.subrange(j, j + 1);
        assert(cmd_rewritten(type_info, q[j], seg));
        assert(command_clean(q[j]));
        assert(!is_global_let(q[j]));
        assert(seg[0] == r[j]);
        lemma_clean_command_same(q[j], r[j]);
    }
}

/// How many variable references to `name` occur in `e`.
pub open spec fn refs_to(e: Expr, name: Symbol) -> nat
    decreases e, 0nat,
{
    match e {
        Expr::Lit(_) => 0,
        Expr::Var(v) => if v.name == name { 1 } else { 0 },
        Expr::Call(_, args) => refs_in(args@, name),
    }
}

/// How many variable references to `name` occur in the expressions of `s`.
pub open spec fn refs_in(s: Seq<Expr>, name: Symbol) -> nat
    decreases s, s.len(),
{
    if s.len() == 0 {
        0
    } else {
        refs_in(s.drop_last(), name) + refs_to(s.last(), name)
    }
}

/// How many calls of function `name` with no arguments occur in `e`.
pub open spec fn calls_to(e: Expr, name: Symbol) -> nat
    decreases e, 0nat,
{
    match e {
        Expr::Lit(_) => 0,
        Expr::Var(_) => 0,
        Expr::Call(f, args) => (if f.name == name && args@.len() == 0 { 1nat } else { 0nat })
            + calls_in(args@, name),
    }
}

/// How many calls of function `name` with no arguments occur in the
/// expressions of `s`.
pub open spec fn calls_in(s: Seq<Expr>, name: Symbol) -> nat
    decreases s, s.len(),
{
    if s.len() == 0 {
        0
    } else {
        calls_in(s.drop_last(), name) + calls_to(s.last(), name)
    }
}

/// Each reference to `name` in `e` becomes one nullary call of `name`: the
/// result holds no reference to `name`, and as many nullary calls of it as
/// `e` held references and nullary calls together.
pub proof fn reference_substitution(e: Expr, r: Expr, name: Symbol)
    requires
        expr_rewritten(e, r),
    ensures
        refs_to(r, name) == 0,
        calls_to(r, name) == refs_to(e, name) + calls_to(e, name),
    decreases e, 0nat,
{
    if let Expr::Call(f, args) = e {
        if let Expr::Call(g, rargs) = r {
            assert(exprs_rewritten(args@, rargs@));
            references_substitution(args@, rargs@, name);
        }
    }
}

/// The same count, over a sequence of expressions rewritten one by one.
pub proof fn references_substitution(s: Seq<Expr>, t: Seq<Expr>, name: Symbol)
    requires
        exprs_rewritten(s, t),
    ensures
        refs_in(t, name) == 0,
        calls_in(t, name) == refs_in(s, name) + calls_in(s, name),
    decreases s, s.len(),
{
    if s.len() > 0 {
        let n = s.len() - 1;
        assert(expr_rewritten(s[n], t[n]));
        assert forall|i: int| 0 <= i < n implies #[trigger] expr_rewritten(
            s.drop_last()[i],
            t.drop_last()[i],
        ) by {
            assert(expr_rewritten(s[i], t[i]));
        }
        references_substitution(s.drop_last(), t.drop_last(), name);
        reference_substitution(s.last(), t.last(), name);
    }
}

/// The expressions embedded in `a`, in order.
pub open spec fn action_exprs(a: Action) -> Seq<Expr> {
    match a {
        Action::Let(_, _, e) => seq![e],
        Action::Assign(_, _, args, e) => args@.push(e),
        Action::Union(_, x, y) => seq![x, y],
        Action::Expr(_, e) => seq![e],
        Action::Panic(_, _) => seq![],
    }
}

/// The expressions embedded in the actions of `s`, in order.
pub open spec fn actions_exprs(s: Seq<Action>) -> Seq<Expr>
    decreases s.len(),
{
    if s.len() == 0 {
        seq![]
    } else {
        actions_exprs(s.drop_last()) + action_exprs(s.last())
    }
}

pub open spec fn opt_exprs(e: Option<Expr>) -> Seq<Expr> {
    match e {
        Some(x) => seq![x],
        None => seq![],
    }
}

/// The expressions embedded anywhere in `c`, in order.
pub open spec fn command_exprs(c: Command) -> Seq<Expr> {
    match c {
        Command::CoreAction(a) => action_exprs(a),
        Command::Function(f) => opt_exprs(f.default) + opt_exprs(f.merge) + actions_exprs(
            f.merge_action@,
        ),
        Command::Rule(r) => r.body@ + actions_exprs(r.head@),
        Command::Check(_, es) => es@,
        Command::Push(_) => seq![],
        Command::Pop(_) => seq![],
    }
}

/// The expressions embedded anywhere in the program `p`, in order.
pub open spec fn program_exprs(p: Seq<Command>) -> Seq<Expr>
    decreases p.len(),
{
    if p.len() == 0 {
        seq![]
    } else {
        program_exprs(p.drop_last()) + command_exprs(p.last())
    }
}

proof fn lemma_rel_concat(
    a: Seq<Expr>,
    b: Seq<Expr>,
    c: Seq<Expr>,
    d: Seq<Expr>,
    rel: spec_fn(Expr, Expr) -> bool,
)
    requires
        exprs_rel(a, b, rel),
        exprs_rel(c, d, rel),
    ensures
        exprs_rel(a + c, b + d, rel),
{
    assert forall|i: int| 0 <= i < (a + c).len() implies #[trigger] rel((a + c)[i], (b + d)[i]) by {
        if i < a.len() {
            assert(rel(a[i], b[i]));
        } else {
            assert(rel(c[i - a.len()], d[i - a.len()]));
        }
    }
}

proof fn lemma_action_exprs_rel(a: Action, b: Action)
    requires
        action_rewritten(a, b),
    ensures
        exprs_rel(action_exprs(a), action_exprs(b), rewriting()),
{
    if let Action::Assign(_, _, args, e) = a {
        let args2 = b->Assign_2;
        let e2 = b->Assign_3;
        lemma_rel_concat(args@, args2@, seq![e], seq![e2], rewriting());
        assert(args@.push(e) =~= args@ + seq![e]);
        assert(args2@.push(e2) =~= args2@ + seq![e2]);
    }
}

proof fn lemma_actions_exprs_rel(s: Seq<Action>, t: Seq<Action>)
    requires
        actions_rel(s, t, rewriting()),
    ensures
        exprs_rel(actions_exprs(s), actions_exprs(t), rewriting()),
    decreases s.len(),
{
    if s.len() > 0 {
        let n = s.len() - 1;
        assert forall|i: int| 0 <= i < n implies #[trigger] action_rel(
            s.drop_last()[i],
            t.drop_last()[i],
            rewriting(),
        ) by {
            assert(action_rel(s[i], t[i], rewriting()));
        }
        lemma_actions_exprs_rel(s.drop_last(), t.drop_last());
        assert(action_rel(s[n], t[n], rewriting()));
        lemma_action_exprs_rel(s.last(), t.last());
        lemma_rel_concat(
            actions_exprs(s.drop_last()),
            actions_exprs(t.drop_last()),
            action_exprs(s.last()),
            action_exprs(t.last()),
            rewriting(),
        );
    }
}

proof fn lemma_opt_exprs_rel(a: Option<Expr>, b: Option<Expr>)
    requires
        opt_rel(a, b, rewriting()),
    ensures
        exprs_rel(opt_exprs(a), opt_exprs(b), rewriting()),
{
    if let Some(x) = a {
        assert(rewriting()(opt_exprs(a)[0], opt_exprs(b)[0]));
    }
}

proof fn lemma_command_exprs_rel(c: Command, d: Command)
    requires
        command_rel(c, d, rewriting()),
    ensures
        exprs_rel(command_exprs(c), command_exprs(d), rewriting()),
{
    match c {
        Command::CoreAction(a) => {
            lemma_action_exprs_rel(a, d->CoreAction_0);
        },
        Command::Function(f) => {
            let g = d->Function_0;
            lemma_opt_exprs_rel(f.default, g.default);
            lemma_opt_exprs_rel(f.merge, g.merge);
            lemma_actions_exprs_rel(f.merge_action@, g.merge_action@);
            lemma_rel_concat(
                opt_exprs(f.default),
                opt_exprs(g.default),
                opt_exprs(f.merge),
                opt_exprs(g.merge),
                rewriting(),
            );
            lemma_rel_concat(
                opt_exprs(f.default) + opt_exprs(f.merge),
                opt_exprs(g.default) + opt_exprs(g.merge),
                actions_exprs(f.merge_action@),
                actions_exprs(g.merge_action@),
                rewriting(),
            );
        },
        Command::Rule(r) => {
            let q = d->Rule_0;
            lemma_actions_exprs_rel(r.head@, q.head@);
            lemma_rel_concat(
                r.body@,
                q.body@,
                actions_exprs(r.head@),
                actions_exprs(q.head@),
                rewriting(),
            );
        },
        _ => {},
    }
}

proof fn lemma_program_exprs_append(a: Seq<Command>, b: Seq<Command>)
    ensures
        program_exprs(a + b) == program_exprs(a) + program_exprs(b),
    decreases b.len(),
{
    if b.len() == 0 {
        assert(a + b =~= a);
        assert(program_exprs(a) + program_exprs(b) =~= program_exprs(a));
    } else {
        lemma_program_exprs_append(a, b.drop_last());
        assert((a + b).drop_last() =~= a + b.drop_last());
        assert((a + b).last() == b.last());
        assert(program_exprs(a) + program_exprs(b.drop_last()) + command_exprs(b.last())
            =~= program_exprs(a) + (program_exprs(b.drop_last()) + command_exprs(b.last())));
    }
}

/// The commands made of one command hold its expressions, rewritten.
proof fn lemma_cmd_exprs_rel(type_info: TypeInfo, c: Command, out: Seq<Command>)
    requires
        cmd_rewritten(type_info, c, out),
    ensures
        exprs_rel(command_exprs(c), program_exprs(out), rewriting()),
{
    if is_global_let(c) {
        let e = c->CoreAction_0->Let_2;
        let e2 = out[1]->CoreAction_0->Assign_3;
        assert(out.drop_last().drop_last() =~= seq![]);
        assert(program_exprs(out.drop_last().drop_last()) =~= seq![]);
        assert(out[0]->Function_0.merge_action@ =~= seq![]);
        assert(actions_exprs(out[0]->Function_0.merge_action@) =~= seq![]);
        assert(command_exprs(out[0]) =~= seq![]);
        assert(program_exprs(out.drop_last()) =~= seq![]);
        assert(out[1]->CoreAction_0->Assign_2@ =~= seq![]);
        assert(command_exprs(out[1]) =~= seq![e2]);
        assert(program_exprs(out) =~= seq![e2]);
        assert(rewriting()(command_exprs(c)[0], program_exprs(out)[0]));
    } else {
        lemma_command_exprs_rel(c, out[0]);
        assert(out.drop_last() =~= seq![]);
        assert(program_exprs(out.drop_last()) =~= seq![]);
        assert(program_exprs(out) =~= command_exprs(out[0]));
    }
}

proof fn lemma_program_exprs_rel(type_info: TypeInfo, p: Seq<Command>, q: Seq<Command>, n: int)
    requires
        program_rewritten(type_info, p, q),
        0 <= n <= p.len(),
    ensures
        exprs_rel(
            program_exprs(p.take(n)),
            program_exprs(q.take(offset(p, n) as int)),
            rewriting(),
        ),
    decreases n,
{
    lemma_offset_monotone(p, n, p.len() as int);
    if n == 0 {
        assert(p.take(0) =~= seq![]);
        assert(q.take(0) =~= seq![]);
    } else {
        let k = n - 1;
        lemma_program_exprs_rel(type_info, p, q, k);
        let lo = offset(p, k) as int;
        let hi = offset(p, k + 1) as int;
        let seg = q.subrange(lo, hi);
        assert(cmd_rewritten(type_info, p[k], seg));
        lemma_cmd_exprs_rel(type_info, p[n - 1], seg);
        assert(p.take(n).drop_last() =~= p.take(n - 1));
        assert(p.take(n).last() == p[n - 1]);
        assert(q.take(hi) =~= q.take(lo) + seg);
        lemma_program_exprs_append(q.take(lo), seg);
        lemma_rel_concat(
            program_exprs(p.take(n - 1)),
            program_exprs(q.take(lo)),
            command_exprs(p[n - 1]),
            program_exprs(seg),
            rewriting(),
        );
    }
}

/// Over the whole program, including the values of globals and the
/// expressions inside every other action and command, each reference to
/// `name` becomes one nullary call of `name`: none is left, none is dropped
/// and none is added.
pub proof fn program_reference_substitution(
    type_info: TypeInfo,
    p: Seq<Command>,
    q: Seq<Command>,
    name: Symbol,
)
    requires
        program_rewritten(type_info, p, q),
    ensures
        refs_in(program_exprs(q), name) == 0,
        calls_in(program_exprs(q), name) == refs_in(program_exprs(p), name) + calls_in(
            program_exprs(p),
            name,
        ),
{
    lemma_program_exprs_rel(type_info, p, q, p.len() as int);
    assert(p.take(p.len() as int) =~= p);
    assert(q.take(q.len() as int) =~= q);
    let s = program_exprs(p);
    let t = program_exprs(q);
    assert forall|i: int| 0 <= i < s.len() implies #[trigger] expr_rewritten(s[i], t[i]) by {
        assert(rewriting()(s[i], t[i]));
    }
    references_substitution(s, t, name);
}

} // verus!
