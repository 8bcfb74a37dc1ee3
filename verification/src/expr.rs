//! The statement and expression trees that a method body is rewritten into.

use vstd::prelude::*;
use crate::types::{ClassRef, ClassRefView, FieldRef, FieldRefView, Literal, LiteralView, MethodRef, MethodRefView};

verus! {

/// A unary operator of the expression tree.
#[derive(Debug, Clone, Copy, PartialEq, Eq, Structural)]
pub enum UnOp {
    Neg,
}

/// The relation that a comparison tests between its left and right operand.
#[derive(Debug, Clone, Copy, PartialEq, Eq, Structural)]
pub enum Relation {
    Equal,
    NotEqual,
    Less,
    GreaterOrEqual,
    Greater,
    LessOrEqual,
}

/// A binary operator of the expression tree.
#[derive(Debug, Clone, Copy, PartialEq, Eq, Structural)]
pub enum BinOp {
    Add,
    Sub,
    Mul,
    Div,
    Rem,
    Shl,
    Shr,
    Ushr,
    BitAnd,
    BitOr,
    BitXor,
    Compare(Relation),
}

/// Something that can be assigned to: a variable, or a field of a class
/// (`this` is `None`) or of an object.
#[derive(Debug, PartialEq, Eq)]
pub enum Assignable {
    /// A named variable and its version.
    Variable(String, usize),
    Field { this: Option<Box<Expr>>, class: ClassRef, field: FieldRef },
}

/// An expression.
#[derive(Debug, PartialEq, Eq)]
pub enum Expr {
    /// The current instance.
    This,
    Literal(Literal),
    Assignable(Box<Assignable>),
    UnaryOp(UnOp, Box<Expr>),
    BinaryOp(BinOp, Box<Expr>, Box<Expr>),
    /// `to = from`, or `to op= from` when `op` is given.
    Assign { to: Box<Assignable>, op: Option<BinOp>, from: Box<Expr> },
    /// A call: receiver (if any), method, owning class, arguments in order.
    Invoke(Option<Box<Expr>>, MethodRef, ClassRef, Vec<Expr>),
}

/// A statement.
#[derive(Debug, PartialEq, Eq)]
pub enum Statement {
    Expr(Expr),
    Return(Option<Expr>),
}

/// Model of an [`Assignable`].
pub enum AssignableView {
    Variable(Seq<char>, nat),
    Field { this: Option<Box<ExprView>>, class: ClassRefView, field: FieldRefView },
}

/// Model of an [`Expr`].
pub enum ExprView {
    This,
    Literal(LiteralView),
    Assignable(Box<AssignableView>),
    UnaryOp(UnOp, Box<ExprView>),
    BinaryOp(BinOp, Box<ExprView>, Box<ExprView>),
    Assign { to: Box<AssignableView>, op: Option<BinOp>, from: Box<ExprView> },
    Invoke(Option<Box<ExprView>>, MethodRefView, ClassRefView, Seq<ExprView>),
}

/// Model of a [`Statement`].
pub enum StatementView {
    Expr(ExprView),
    Return(Option<ExprView>),
}

/// The model of an assignable.
pub open spec fn assignable_view(a: Assignable) -> AssignableView
    decreases a,
{
    match a {
        Assignable::Variable(name, version) => AssignableView::Variable(name@, version as nat),
        Assignable::Field { this, class, field } => AssignableView::Field {
            this: match this {
                Some(object) => Some(Box::new(expr_view(*object))),
                None => None,
            },
            class: class@,
            field: field@,
        },
    }
}

/// The model of an expression.
pub open spec fn expr_view(e: Expr) -> ExprView
    decreases e,
{
    match e {
        Expr::This => ExprView::This,
        Expr::Literal(literal) => ExprView::Literal(literal@),
        Expr::Assignable(a) => ExprView::Assignable(Box::new(assignable_view(*a))),
        Expr::UnaryOp(op, operand) => ExprView::UnaryOp(op, Box::new(expr_view(*operand))),
        Expr::BinaryOp(op, left, right) => ExprView::BinaryOp(
            op,
            Box::new(expr_view(*left)),
            Box::new(expr_view(*right)),
        ),
        Expr::Assign { to, op, from } => ExprView::Assign {
            to: Box::new(assignable_view(*to)),
            op,
            from: Box::new(expr_view(*from)),
        },
        Expr::Invoke(receiver, method, class, args) => ExprView::Invoke(
            match receiver {
                Some(object) => Some(Box::new(expr_view(*object))),
                None => None,
            },
            method@,
            class@,
            Seq::new(
                args@.len(),
                |i: int|
                    if 0 <= i < args@.len() {
                        expr_view(args@[i])
                    } else {
                        ExprView::This
                    },
            ),
        ),
    }
}

impl View for Assignable {
    type V = AssignableView;

    open spec fn view(&self) -> AssignableView {
        assignable_view(*self)
    }
}

impl View for Expr {
    type V = ExprView;

    open spec fn view(&self) -> ExprView {
        expr_view(*self)
    }
}

impl View for Statement {
    type V = StatementView;

    open spec fn view(&self) -> StatementView {
        match self {
            Statement::Expr(e) => StatementView::Expr(e@),
            Statement::Return(value) => StatementView::Return(
                match value {
                    Some(e) => Some(e@),
                    None => None,
                },
            ),
        }
    }
}

/// Model of a read of the variable `name`.
pub open spec fn variable_view(name: Seq<char>) -> ExprView {
    ExprView::Assignable(Box::new(AssignableView::Variable(name, 0)))
}

/// Model of the statement `to = from`.
pub open spec fn assign_view(to: AssignableView, from: ExprView) -> StatementView {
    StatementView::Expr(ExprView::Assign { to: Box::new(to), op: None, from: Box::new(from) })
}

/// A read of the variable `name`.
pub fn mk_variable(name: String) -> (e: Expr)
    ensures
        e@ == variable_view(name@),
{
    let variable = Assignable::Variable(name, 0);
    assert(variable@ == AssignableView::Variable(name@, 0));
    Expr::Assignable(Box::new(variable))
}

/// The statement that evaluates `e`.
pub fn stmt_expr(e: Expr) -> (s: Statement)
    ensures
        s@ == StatementView::Expr(e@),
{
    Statement::Expr(e)
}

/// The statement `to = from`.
pub fn mk_assign(to: Assignable, from: Expr) -> (s: Statement)
    ensures
        s@ == assign_view(to@, from@),
{
    Statement::Expr(Expr::Assign { to: Box::new(to), op: None, from: Box::new(from) })
}

} // verus!
