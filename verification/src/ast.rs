use vstd::prelude::*;
use crate::positions::Span;

verus! {

/// A syntax node: what it is and where it stands in the source.
#[derive(Debug)]
pub struct Node<T> {
    pub kind: T,
    pub span: Span,
}

pub type Expr = Node<ExprKind>;

pub type Stmt = Node<StmtKind>;

/// The expressions of the language.
#[derive(Debug)]
pub enum ExprKind {
    Num(i64),
    Ident(String),
    Str(String),
    Plus(Box<Expr>, Box<Expr>),
    Minus(Box<Expr>, Box<Expr>),
    Star(Box<Expr>, Box<Expr>),
    Slash(Box<Expr>, Box<Expr>),
    Less(Box<Expr>, Box<Expr>),
    LessEqual(Box<Expr>, Box<Expr>),
    Greater(Box<Expr>, Box<Expr>),
    GreaterEqual(Box<Expr>, Box<Expr>),
    EqualEqual(Box<Expr>, Box<Expr>),
    NotEqual(Box<Expr>, Box<Expr>),
    PreInc(String),
    PreDec(String),
    PostInc(String),
    PostDec(String),
    Call { call: Box<Expr>, args: Vec<Expr> },
}

/// The statements of the language.
#[derive(Debug)]
pub enum StmtKind {
    Expr(Expr),
    Print(Expr),
    VerDecl { name: String, value: Expr, mutable: bool },
    Assign { name: String, value: Expr },
    If { cond: Expr, then_branch: Vec<Stmt>, else_branch: Option<Vec<Stmt>> },
    While { cond: Expr, body: Vec<Stmt> },
    For { init: Box<Stmt>, cond: Expr, incr: Option<Expr>, body: Vec<Stmt> },
    Func { name: String, params: Vec<String>, body: Vec<Stmt> },
    Return(Expr),
    Use(String),
}

/// The binary operators.
#[derive(Clone, Copy, Debug, PartialEq, Eq, Structural)]
pub enum BinOp {
    Plus,
    Minus,
    Star,
    Slash,
    Less,
    LessEqual,
    Greater,
    GreaterEqual,
    EqualEqual,
    NotEqual,
}

/// The increment and decrement operators.
#[derive(Clone, Copy, Debug, PartialEq, Eq, Structural)]
pub enum StepOp {
    PreInc,
    PreDec,
    PostInc,
    PostDec,
}

/// The mathematical value of an expression.
pub struct SExpr {
    pub kind: SExprKind,
    pub span: Span,
}

/// The mathematical value of an expression's kind.
pub enum SExprKind {
    Num(i64),
    Ident(Seq<char>),
    Str(Seq<char>),
    Bin(BinOp, Box<SExpr>, Box<SExpr>),
    Step(StepOp, Seq<char>),
    Call { call: Box<SExpr>, args: Seq<SExpr> },
}

/// The mathematical value of a statement.
pub struct SStmt {
    pub kind: SStmtKind,
    pub span: Span,
}

/// The mathematical value of a statement's kind.
pub enum SStmtKind {
    Expr(SExpr),
    Print(SExpr),
    VerDecl { name: Seq<char>, value: SExpr, mutable: bool },
    Assign { name: Seq<char>, value: SExpr },
    If { cond: SExpr, then_branch: Seq<SStmt>, else_branch: Option<Seq<SStmt>> },
    While { cond: SExpr, body: Seq<SStmt> },
    For { init: Box<SStmt>, cond: SExpr, incr: Option<SExpr>, body: Seq<SStmt> },
    Func { name: Seq<char>, params: Seq<Seq<char>>, body: Seq<SStmt> },
    Return(SExpr),
    Use(Seq<char>),
}

/// The mathematical value of an expression.
pub open spec fn expr_view(e: Expr) -> SExpr
    decreases e,
{
    SExpr {
        kind: match e.kind {
            ExprKind::Num(n) => SExprKind::Num(n),
            ExprKind::Ident(s) => SExprKind::Ident(s@),
            ExprKind::Str(s) => SExprKind::Str(s@),
            ExprKind::Plus(l, r) => SExprKind::Bin(BinOp::Plus, Box::new(expr_view(*l)), Box::new(expr_view(*r))),
            ExprKind::Minus(l, r) => SExprKind::Bin(BinOp::Minus, Box::new(expr_view(*l)), Box::new(expr_view(*r))),
            ExprKind::Star(l, r) => SExprKind::Bin(BinOp::Star, Box::new(expr_view(*l)), Box::new(expr_view(*r))),
            ExprKind::Slash(l, r) => SExprKind::Bin(BinOp::Slash, Box::new(expr_view(*l)), Box::new(expr_view(*r))),
            ExprKind::Less(l, r) => SExprKind::Bin(BinOp::Less, Box::new(expr_view(*l)), Box::new(expr_view(*r))),
            ExprKind::LessEqual(l, r) => SExprKind::Bin(BinOp::LessEqual, Box::new(expr_view(*l)), Box::new(expr_view(*r))),
            ExprKind::Greater(l, r) => SExprKind::Bin(BinOp::Greater, Box::new(expr_view(*l)), Box::new(expr_view(*r))),
            ExprKind::GreaterEqual(l, r) => SExprKind::Bin(BinOp::GreaterEqual, Box::new(expr_view(*l)), Box::new(expr_view(*r))),
            ExprKind::EqualEqual(l, r) => SExprKind::Bin(BinOp::EqualEqual, Box::new(expr_view(*l)), Box::new(expr_view(*r))),
            ExprKind::NotEqual(l, r) => SExprKind::Bin(BinOp::NotEqual, Box::new(expr_view(*l)), Box::new(expr_view(*r))),
            ExprKind::PreInc(s) => SExprKind::Step(StepOp::PreInc, s@),
            ExprKind::PreDec(s) => SExprKind::Step(StepOp::PreDec, s@),
            ExprKind::PostInc(s) => SExprKind::Step(StepOp::PostInc, s@),
            ExprKind::PostDec(s) => SExprKind::Step(StepOp::PostDec, s@),
            ExprKind::Call { call, args } => SExprKind::Call {
                call: Box::new(expr_view(*call)),
                args: exprs_view(args@),
            },
        },
        span: e.span,
    }
}

/// The mathematical values of a sequence of expressions.
pub open spec fn exprs_view(es: Seq<Expr>) -> Seq<SExpr>
    decreases es,
{
    if es.len() == 0 {
        Seq::empty()
    } else {
        exprs_view(es.drop_last()).push(expr_view(es.last()))
    }
}

/// The names in a sequence of strings.
pub open spec fn names_view(v: Seq<String>) -> Seq<Seq<char>> {
    Seq::new(v.len(), |k: int| v[k]@)
}

/// The mathematical value of a statement.
pub open spec fn stmt_view(s: Stmt) -> SStmt
    decreases s,
{
    SStmt {
        kind: match s.kind {
            StmtKind::Expr(e) => SStmtKind::Expr(expr_view(e)),
            StmtKind::Print(e) => SStmtKind::Print(expr_view(e)),
            StmtKind::VerDecl { name, value, mutable } => SStmtKind::VerDecl {
                name: name@,
                value: expr_view(value),
                mutable,
            },
            StmtKind::Assign { name, value } => SStmtKind::Assign { name: name@, value: expr_view(value) },
            StmtKind::If { cond, then_branch, else_branch } => SStmtKind::If {
                cond: expr_view(cond),
                then_branch: stmts_view(then_branch@),
                else_branch: match else_branch {
                    Some(b) => Some(stmts_view(b@)),
                    None => None,
                },
            },
            StmtKind::While { cond, body } => SStmtKind::While {
                cond: expr_view(cond),
                body: stmts_view(body@),
            },
            StmtKind::For { init, cond, incr, body } => SStmtKind::For {
                init: Box::new(stmt_view(*init)),
                cond: expr_view(cond),
                incr: match incr {
                    Some(e) => Some(expr_view(e)),
                    None => None,
                },
                body: stmts_view(body@),
            },
            StmtKind::Func { name, params, body } => SStmtKind::Func {
                name: name@,
                params: names_view(params@),
                body: stmts_view(body@),
            },
            StmtKind::Return(e) => SStmtKind::Return(expr_view(e)),
            StmtKind::Use(n) => SStmtKind::Use(n@),
        },
        span: s.span,
    }
}

/// The mathematical values of a sequence of statements.
pub open spec fn stmts_view(ss: Seq<Stmt>) -> Seq<SStmt>
    decreases ss,
{
    if ss.len() == 0 {
        Seq::empty()
    } else {
        stmts_view(ss.drop_last()).push(stmt_view(ss.last()))
    }
}

pub proof fn lemma_exprs_view(es: Seq<Expr>)
    ensures
        exprs_view(es).len() == es.len(),
        forall|k: int| 0 <= k < es.len() ==> #[trigger] exprs_view(es)[k] == expr_view(es[k]),
    decreases es.len(),
{
    if es.len() > 0 {
        lemma_exprs_view(es.drop_last());
    }
}

pub proof fn lemma_stmts_view(ss: Seq<Stmt>)
    ensures
        stmts_view(ss).len() == ss.len(),
        forall|k: int| 0 <= k < ss.len() ==> #[trigger] stmts_view(ss)[k] == stmt_view(ss[k]),
    decreases ss.len(),
{
    if ss.len() > 0 {
        lemma_stmts_view(ss.drop_last());
    }
}

pub proof fn lemma_exprs_view_push(es: Seq<Expr>, e: Expr)
    ensures
        exprs_view(es.push(e)) == exprs_view(es).push(expr_view(e)),
{
    assert(es.push(e).drop_last() =~= es);
}

pub proof fn lemma_stmts_view_push(ss: Seq<Stmt>, s: Stmt)
    ensures
        stmts_view(ss.push(s)) == stmts_view(ss).push(stmt_view(s)),
{
    assert(ss.push(s).drop_last() =~= ss);
}

impl Node<ExprKind> {
    /// A copy of the expression.
    pub fn dup(&self) -> (r: Expr)
        ensures
            expr_view(r) == expr_view(*self),
        decreases self,
    {
        let kind = match &self.kind {
            ExprKind::Num(n) => ExprKind::Num(*n),
            ExprKind::Ident(s) => ExprKind::Ident(s.clone()),
            ExprKind::Str(s) => ExprKind::Str(s.clone()),
            ExprKind::Plus(l, r) => ExprKind::Plus(Box::new((**l).dup()), Box::new((**r).dup())),
            ExprKind::Minus(l, r) => ExprKind::Minus(Box::new((**l).dup()), Box::new((**r).dup())),
            ExprKind::Star(l, r) => ExprKind::Star(Box::new((**l).dup()), Box::new((**r).dup())),
            ExprKind::Slash(l, r) => ExprKind::Slash(Box::new((**l).dup()), Box::new((**r).dup())),
            ExprKind::Less(l, r) => ExprKind::Less(Box::new((**l).dup()), Box::new((**r).dup())),
            ExprKind::LessEqual(l, r) => ExprKind::LessEqual(Box::new((**l).dup()), Box::new((**r).dup())),
            ExprKind::Greater(l, r) => ExprKind::Greater(Box::new((**l).dup()), Box::new((**r).dup())),
            ExprKind::GreaterEqual(l, r) => ExprKind::GreaterEqual(Box::new((**l).dup()), Box::new((**r).dup())),
            ExprKind::EqualEqual(l, r) => ExprKind::EqualEqual(Box::new((**l).dup()), Box::new((**r).dup())),
            ExprKind::NotEqual(l, r) => ExprKind::NotEqual(Box::new((**l).dup()), Box::new((**r).dup())),
            ExprKind::PreInc(s) => ExprKind::PreInc(s.clone()),
            ExprKind::PreDec(s) => ExprKind::PreDec(s.clone()),
            ExprKind::PostInc(s) => ExprKind::PostInc(s.clone()),
            ExprKind::PostDec(s) => ExprKind::PostDec(s.clone()),
            ExprKind::Call { call, args } => ExprKind::Call { call: Box::new((**call).dup()), args: dup_exprs(args) },
        };
        Node { kind, span: self.span }
    }
}

/// A copy of a list of expressions.
pub fn dup_exprs(v: &Vec<Expr>) -> (r: Vec<Expr>)
    ensures
        exprs_view(r@) == exprs_view(v@),
    decreases v,
{
    let mut r: Vec<Expr> = Vec::new();
    let mut i: usize = 0;
    while i < v.len()
        invariant
            i <= v.len(),
            exprs_view(r@) == exprs_view(v@.take(i as int)),
        decreases v.len() - i,
    {
        assert(decreases_to!(v => v@[i as int]));
        let e = v[i].dup();
        proof {
            lemma_exprs_view_push(r@, e);
            lemma_exprs_view_push(v@.take(i as int), v@[i as int]);
            assert(v@.take(i as int).push(v@[i as int]) =~= v@.take(i + 1));
        }
        r.push(e);
        i = i + 1;
    }
    assert(v@.take(i as int) =~= v@);
    r
}

impl Node<StmtKind> {
    /// A copy of the statement.
    pub fn dup(&self) -> (r: Stmt)
        ensures
            stmt_view(r) == stmt_view(*self),
        decreases self,
    {
        let kind = match &self.kind {
            StmtKind::Expr(e) => StmtKind::Expr(e.dup()),
            StmtKind::Print(e) => StmtKind::Print(e.dup()),
            StmtKind::VerDecl { name, value, mutable } => StmtKind::VerDecl {
                name: name.clone(),
                value: value.dup(),
                mutable: *mutable,
            },
            StmtKind::Assign { name, value } => StmtKind::Assign { name: name.clone(), value: value.dup() },
            StmtKind::If { cond, then_branch, else_branch } => StmtKind::If {
                cond: cond.dup(),
                then_branch: dup_stmts(then_branch),
                else_branch: match else_branch {
                    Some(b) => Some(dup_stmts(b)),
                    None => None,
                },
            },
            StmtKind::While { cond, body } => StmtKind::While { cond: cond.dup(), body: dup_stmts(body) },
            StmtKind::For { init, cond, incr, body } => StmtKind::For {
                init: Box::new((**init).dup()),
                cond: cond.dup(),
                incr: match incr {
                    Some(e) => Some(e.dup()),
                    None => None,
                },
                body: dup_stmts(body),
            },
            StmtKind::Func { name, params, body } => StmtKind::Func {
                name: name.clone(),
                params: dup_names(params),
                body: dup_stmts(body),
            },
            StmtKind::Return(e) => StmtKind::Return(e.dup()),
            StmtKind::Use(n) => StmtKind::Use(n.clone()),
        };
        Node { kind, span: self.span }
    }
}

/// A copy of a list of statements.
pub fn dup_stmts(v: &Vec<Stmt>) -> (r: Vec<Stmt>)
    ensures
        stmts_view(r@) == stmts_view(v@),
    decreases v,
{
    let mut r: Vec<Stmt> = Vec::new();
    let mut i: usize = 0;
    while i < v.len()
        invariant
            i <= v.len(),
            stmts_view(r@) == stmts_view(v@.take(i as int)),
        decreases v.len() - i,
    {
        assert(decreases_to!(v => v@[i as int]));
        let s = v[i].dup();
        proof {
            lemma_stmts_view_push(r@, s);
            lemma_stmts_view_push(v@.take(i as int), v@[i as int]);
            assert(v@.take(i as int).push(v@[i as int]) =~= v@.take(i + 1));
        }
        r.push(s);
        i = i + 1;
    }
    assert(v@.take(i as int) =~= v@);
    r
}

/// A copy of a list of names.
pub fn dup_names(v: &Vec<String>) -> (r: Vec<String>)
    ensures
        names_view(r@) == names_view(v@),
{
    let mut r: Vec<String> = Vec::new();
    let mut i: usize = 0;
    while i < v.len()
        invariant
            i <= v.len(),
            r@.len() == i,
            forall|k: int| 0 <= k < i ==> #[trigger] r@[k]@ == v@[k]@,
        decreases v.len() - i,
    {
        r.push(v[i].clone());
        i = i + 1;
    }
    assert(names_view(r@) =~= names_view(v@));
    r
}

} // verus!
