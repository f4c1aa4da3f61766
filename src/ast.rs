//! The resolved program representation that the pass reads and writes.
use vstd::prelude::*;

verus! {

/// An interned name.
#[derive(Clone, Copy, Debug, PartialEq, Eq)]
pub struct Symbol(pub u64);

/// A resolved data sort.
#[derive(Clone, Copy, Debug, PartialEq, Eq)]
pub struct Sort {
    pub name: Symbol,
}

impl Sort {
    pub fn name(&self) -> (r: Symbol)
        ensures
            r == self.name,
    {
        self.name
    }
}

/// A source location attached to actions.
#[derive(Clone, Copy, Debug, PartialEq, Eq)]
pub struct Span {
    pub start: u64,
    pub end: u64,
}

/// A constant value.
#[derive(Clone, Copy, Debug, PartialEq, Eq)]
pub enum Literal {
    Int(i64),
    Bool(bool),
    Str(Symbol),
    Unit,
}

/// The fully resolved signature of a callable function.
#[derive(Clone, Debug, PartialEq, Eq)]
pub struct FuncType {
    pub name: Symbol,
    pub input: Vec<Sort>,
    pub output: Sort,
    pub is_datatype: bool,
    pub has_default: bool,
}

/// A variable together with its resolved sort.
#[derive(Clone, Copy, Debug, PartialEq, Eq)]
pub struct ResolvedVar {
    pub name: Symbol,
    pub sort: Sort,
}

/// A resolved expression.
#[derive(Debug, PartialEq, Eq)]
pub enum Expr {
    Lit(Literal),
    Var(ResolvedVar),
    Call(FuncType, Vec<Expr>),
}

/// An executable statement.
#[derive(Debug, PartialEq, Eq)]
pub enum Action {
    /// Binds a name to the value of an expression.
    Let(Span, Symbol, Expr),
    /// Stores a value in a function at the given arguments.
    Assign(Span, FuncType, Vec<Expr>, Expr),
    /// Merges the classes of two terms.
    Union(Span, Expr, Expr),
    /// Evaluates an expression for its effect.
    Expr(Span, Expr),
    /// Stops with a message.
    Panic(Span, Symbol),
}

/// The argument and result sort names of a declared function.
#[derive(Debug, PartialEq, Eq)]
pub struct Schema {
    pub input: Vec<Symbol>,
    pub output: Symbol,
}

/// A function declaration.
#[derive(Debug, PartialEq, Eq)]
pub struct FunctionDecl {
    pub name: Symbol,
    pub schema: Schema,
    pub default: Option<Expr>,
    pub merge: Option<Expr>,
    pub merge_action: Vec<Action>,
    pub cost: Option<u64>,
    pub unextractable: bool,
}

/// A rewrite rule: when every fact of the body holds, run the head.
#[derive(Debug, PartialEq, Eq)]
pub struct Rule {
    pub name: Symbol,
    pub ruleset: Symbol,
    pub body: Vec<Expr>,
    pub head: Vec<Action>,
}

/// A top-level program unit.
#[derive(Debug, PartialEq, Eq)]
pub enum Command {
    CoreAction(Action),
    Function(FunctionDecl),
    Rule(Rule),
    Check(Span, Vec<Expr>),
    Push(u64),
    Pop(u64),
}

/// The sorts that the type checker assigned to literals.
#[derive(Clone, Copy, Debug, PartialEq, Eq)]
pub struct TypeInfo {
    pub int_sort: Sort,
    pub bool_sort: Sort,
    pub string_sort: Sort,
    pub unit_sort: Sort,
}

impl TypeInfo {
    pub open spec fn literal_sort(self, lit: Literal) -> Sort {
        match lit {
            Literal::Int(_) => self.int_sort,
            Literal::Bool(_) => self.bool_sort,
            Literal::Str(_) => self.string_sort,
            Literal::Unit => self.unit_sort,
        }
    }

    /// The resolved sort of a literal.
    pub fn infer_literal(&self, lit: &Literal) -> (r: Sort)
        ensures
            r == self.literal_sort(*lit),
    {
        match lit {
            Literal::Int(_) => self.int_sort,
            Literal::Bool(_) => self.bool_sort,
            Literal::Str(_) => self.string_sort,
            Literal::Unit => self.unit_sort,
        }
    }
}

impl Expr {
    /// The resolved sort of the value of an expression.
    pub open spec fn output_sort(self, type_info: TypeInfo) -> Sort {
        match self {
            Expr::Lit(lit) => type_info.literal_sort(lit),
            Expr::Var(v) => v.sort,
            Expr::Call(f, _) => f.output,
        }
    }

    pub fn output_type(&self, type_info: &TypeInfo) -> (r: Sort)
        ensures
            r == self.output_sort(*type_info),
    {
        match self {
            Expr::Lit(lit) => type_info.infer_literal(lit),
            Expr::Var(v) => v.sort,
            Expr::Call(f, _) => f.output,
        }
    }
}

} // verus!
