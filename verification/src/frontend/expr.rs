//! Expressions of a plan, and their mathematical model.

use vstd::prelude::*;
use crate::backend::Token;
use crate::value::Slot;

verus! {

/// The operators that take two operands.
#[derive(Debug, PartialEq, Eq, Clone, Copy, Structural)]
pub enum Op {
    Eq,
    NotEq,
    Lt,
    Gt,
    LtEq,
    GtEq,
    Add,
    Sub,
    Mul,
    Div,
    Mod,
}

/// An expression over the slots of a row.
#[derive(Debug, PartialEq)]
pub enum Expr {
    /// True if every operand is.
    And(Vec<Expr>),
    /// True if one operand is.
    Or(Vec<Expr>),
    Not(Box<Expr>),
    Negate(Box<Expr>),
    BinaryOp { left: Box<Expr>, right: Box<Expr>, op: Op },
    Bool(bool),
    Int(i64),
    /// A decimal literal, as it was written.
    Float(String),
    String(String),
    Null,
    MapLit(Vec<MapEntryExpr>),
    List(Vec<Expr>),
    /// The property of the value of the first expression under the given key.
    Prop(Box<Expr>, Token),
    /// The value in a slot of the row.
    Slot(Slot),
    /// A call of a function of the backend; `aggregating` tells whether the
    /// function works over a group of rows.
    FuncCall { name: Token, args: Vec<Expr>, aggregating: bool },
    /// True if the node in the slot has the label.
    HasLabel(Slot, Token),
}

/// One entry of a map literal.
#[derive(Debug, PartialEq)]
pub struct MapEntryExpr {
    pub key: Token,
    pub val: Expr,
}

/// The model of an expression: the same tree over sequences.
pub enum ExprView {
    And(Seq<ExprView>),
    Or(Seq<ExprView>),
    Not(Box<ExprView>),
    Negate(Box<ExprView>),
    BinaryOp { left: Box<ExprView>, right: Box<ExprView>, op: Op },
    Bool(bool),
    Int(i64),
    Float(Seq<char>),
    String(Seq<char>),
    Null,
    MapLit(Seq<MapEntryView>),
    List(Seq<ExprView>),
    Prop(Box<ExprView>, Token),
    Slot(Slot),
    FuncCall { name: Token, args: Seq<ExprView>, aggregating: bool },
    HasLabel(Slot, Token),
}

/// The model of an entry of a map literal.
pub struct MapEntryView {
    pub key: Token,
    pub val: ExprView,
}

/// The model of an expression.
pub open spec fn expr_model(e: Expr) -> ExprView
    decreases e,
{
    match e {
        Expr::And(items) => ExprView::And(exprs_view(items@)),
        Expr::Or(items) => ExprView::Or(exprs_view(items@)),
        Expr::Not(e) => ExprView::Not(Box::new(expr_model(*e))),
        Expr::Negate(e) => ExprView::Negate(Box::new(expr_model(*e))),
        Expr::BinaryOp { left, right, op } => ExprView::BinaryOp {
            left: Box::new(expr_model(*left)),
            right: Box::new(expr_model(*right)),
            op,
        },
        Expr::Bool(b) => ExprView::Bool(b),
        Expr::Int(n) => ExprView::Int(n),
        Expr::Float(s) => ExprView::Float(s@),
        Expr::String(s) => ExprView::String(s@),
        Expr::Null => ExprView::Null,
        Expr::MapLit(entries) => ExprView::MapLit(entries_view(entries@)),
        Expr::List(items) => ExprView::List(exprs_view(items@)),
        Expr::Prop(e, key) => ExprView::Prop(Box::new(expr_model(*e)), key),
        Expr::Slot(s) => ExprView::Slot(s),
        Expr::FuncCall { name, args, aggregating } => ExprView::FuncCall {
            name,
            args: exprs_view(args@),
            aggregating,
        },
        Expr::HasLabel(s, l) => ExprView::HasLabel(s, l),
    }
}

/// The models of a sequence of expressions.
pub open spec fn exprs_view(items: Seq<Expr>) -> Seq<ExprView>
    decreases items,
{
    Seq::new(
        items.len(),
        |i: int|
            if 0 <= i < items.len() {
                expr_model(items[i])
            } else {
                ExprView::Null
            },
    )
}

/// The models of the entries of a map literal.
pub open spec fn entries_view(entries: Seq<MapEntryExpr>) -> Seq<MapEntryView>
    decreases entries,
{
    Seq::new(
        entries.len(),
        |i: int|
            if 0 <= i < entries.len() {
                MapEntryView { key: entries[i].key, val: expr_model(entries[i].val) }
            } else {
                MapEntryView { key: 0, val: ExprView::Null }
            },
    )
}

impl View for Expr {
    type V = ExprView;

    open spec fn view(&self) -> ExprView {
        expr_model(*self)
    }
}

impl View for MapEntryExpr {
    type V = MapEntryView;

    open spec fn view(&self) -> MapEntryView {
        MapEntryView { key: self.key, val: self.val@ }
    }
}

/// The model of a sequence with one more expression at its end.
pub proof fn lemma_exprs_view_push(items: Seq<Expr>, e: Expr)
    ensures
        exprs_view(items.push(e)) == exprs_view(items).push(e@),
{
    assert(exprs_view(items.push(e)) =~= exprs_view(items).push(e@));
}

/// The model of a sequence with one more entry at its end.
pub proof fn lemma_entries_view_push(entries: Seq<MapEntryExpr>, e: MapEntryExpr)
    ensures
        entries_view(entries.push(e)) == entries_view(entries).push(e@),
{
    assert(entries_view(entries.push(e)) =~= entries_view(entries).push(e@));
}

impl Expr {
    /// A copy of this expression.
    pub fn duplicate(&self) -> (c: Expr)
        ensures
            c@ == self@,
        decreases self, 1nat,
    {
        match self {
            Expr::And(items) => Expr::And(clone_exprs(items)),
            Expr::Or(items) => Expr::Or(clone_exprs(items)),
            Expr::Not(e) => Expr::Not(Box::new(e.duplicate())),
            Expr::Negate(e) => Expr::Negate(Box::new(e.duplicate())),
            Expr::BinaryOp { left, right, op } => Expr::BinaryOp {
                left: Box::new(left.duplicate()),
                right: Box::new(right.duplicate()),
                op: *op,
            },
            Expr::Bool(b) => Expr::Bool(*b),
            Expr::Int(n) => Expr::Int(*n),
            Expr::Float(s) => Expr::Float(s.clone()),
            Expr::String(s) => Expr::String(s.clone()),
            Expr::Null => Expr::Null,
            Expr::MapLit(entries) => Expr::MapLit(clone_entries(entries)),
            Expr::List(items) => Expr::List(clone_exprs(items)),
            Expr::Prop(e, key) => Expr::Prop(Box::new(e.duplicate()), *key),
            Expr::Slot(s) => Expr::Slot(*s),
            Expr::FuncCall { name, args, aggregating } => Expr::FuncCall {
                name: *name,
                args: clone_exprs(args),
                aggregating: *aggregating,
            },
            Expr::HasLabel(s, l) => Expr::HasLabel(*s, *l),
        }
    }
}

/// Copies of the expressions.
pub fn clone_exprs(items: &Vec<Expr>) -> (c: Vec<Expr>)
    ensures
        exprs_view(c@) == exprs_view(items@),
    decreases items, 0nat,
{
    let mut c: Vec<Expr> = Vec::new();
    let mut i: usize = 0;
    while i < items.len()
        invariant
            i <= items.len(),
            c@.len() == i,
            forall|j: int| 0 <= j < i ==> c@[j]@ == items@[j]@,
        decreases items.len() - i,
    {
        c.push(items[i].duplicate());
        i += 1;
    }
    assert(exprs_view(c@) =~= exprs_view(items@));
    c
}

/// Copies of the entries of a map literal.
pub fn clone_entries(entries: &Vec<MapEntryExpr>) -> (c: Vec<MapEntryExpr>)
    ensures
        entries_view(c@) == entries_view(entries@),
    decreases entries, 0nat,
{
    let mut c: Vec<MapEntryExpr> = Vec::new();
    let mut i: usize = 0;
    while i < entries.len()
        invariant
            i <= entries.len(),
            c@.len() == i,
            forall|j: int| 0 <= j < i ==> c@[j]@ == entries@[j]@,
        decreases entries.len() - i,
    {
        c.push(MapEntryExpr { key: entries[i].key, val: entries[i].val.duplicate() });
        i += 1;
    }
    assert(entries_view(c@) =~= entries_view(entries@));
    c
}

} // verus!
