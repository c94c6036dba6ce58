//! The logical plan: a tree of operators. It describes a pipeline that starts
//! at the leaves and ends at the root. All operators share one row of slots,
//! which they read and write like registers.

use vstd::prelude::*;
use crate::backend::Token;
use crate::frontend::expr::{entries_view, exprs_view, Expr, ExprView, MapEntryExpr, MapEntryView};
use crate::value::Slot;

verus! {

/// The direction of a relationship, seen from one of its nodes.
#[derive(Debug, PartialEq, Eq, Copy, Clone, Structural)]
pub enum Dir {
    Out,
    In,
}

impl Dir {
    /// The same direction, seen from the other node.
    pub open spec fn reversed(self) -> Dir {
        match self {
            Dir::Out => Dir::In,
            Dir::In => Dir::Out,
        }
    }

    /// The same direction, seen from the other node.
    pub fn reverse(self) -> (d: Dir)
        ensures
            d == self.reversed(),
    {
        match self {
            Dir::Out => Dir::In,
            Dir::In => Dir::Out,
        }
    }
}

/// Seen from the other node and back again, a direction is itself.
pub proof fn lemma_reverse_twice(d: Dir)
    ensures
        d.reversed().reversed() == d,
        d.reversed() != d,
{
}

/// The type of a relationship: one that the user wrote, or one made up.
#[derive(Debug, PartialEq, Eq, Copy, Clone)]
pub enum RelType {
    Defined(Token),
    Anon(Token),
}

impl RelType {
    /// The token of the type.
    pub fn token(&self) -> (t: Token)
        ensures
            t == match *self {
                RelType::Defined(token) => token,
                RelType::Anon(token) => token,
            },
    {
        match self {
            RelType::Defined(token) => *token,
            RelType::Anon(token) => *token,
        }
    }
}

/// One result of a projection: the expression, its name, and the slot of the
/// new scope that takes its value.
#[derive(Debug, PartialEq)]
pub struct Projection {
    pub expr: Expr,
    pub alias: Token,
    pub dst: Slot,
}

/// The model of a projection.
pub struct ProjectionView {
    pub expr: ExprView,
    pub alias: Token,
    pub dst: Slot,
}

impl View for Projection {
    type V = ProjectionView;

    open spec fn view(&self) -> ProjectionView {
        ProjectionView { expr: self.expr@, alias: self.alias, dst: self.dst }
    }
}

/// Specification of a node to create.
#[derive(Debug, PartialEq)]
pub struct NodeSpec {
    pub slot: usize,
    pub labels: Vec<Token>,
    pub props: Vec<MapEntryExpr>,
}

/// The model of a node to create.
pub struct NodeSpecView {
    pub slot: usize,
    pub labels: Seq<Token>,
    pub props: Seq<MapEntryView>,
}

impl View for NodeSpec {
    type V = NodeSpecView;

    open spec fn view(&self) -> NodeSpecView {
        NodeSpecView { slot: self.slot, labels: self.labels@, props: entries_view(self.props@) }
    }
}

/// Specification of a relationship to create.
#[derive(Debug, PartialEq)]
pub struct RelSpec {
    pub slot: usize,
    pub rel_type: Token,
    pub start_node_slot: usize,
    pub end_node_slot: usize,
    pub props: Vec<MapEntryExpr>,
}

/// The model of a relationship to create.
pub struct RelSpecView {
    pub slot: usize,
    pub rel_type: Token,
    pub start_node_slot: usize,
    pub end_node_slot: usize,
    pub props: Seq<MapEntryView>,
}

impl View for RelSpec {
    type V = RelSpecView;

    open spec fn view(&self) -> RelSpecView {
        RelSpecView {
            slot: self.slot,
            rel_type: self.rel_type,
            start_node_slot: self.start_node_slot,
            end_node_slot: self.end_node_slot,
            props: entries_view(self.props@),
        }
    }
}

/// One change of the properties of the entity in a slot.
#[derive(Debug, PartialEq)]
pub enum SetAction {
    /// Set one property to the value of the expression.
    SingleAssign { entity: Slot, key: Token, value: Expr },
    /// Add the entries of the map to the properties.
    Append { entity: Slot, value: Expr },
    /// Replace all properties by those of the value.
    Overwrite { entity: Slot, value: Expr },
}

/// The model of a change of properties.
pub enum SetActionView {
    SingleAssign { entity: Slot, key: Token, value: ExprView },
    Append { entity: Slot, value: ExprView },
    Overwrite { entity: Slot, value: ExprView },
}

impl View for SetAction {
    type V = SetActionView;

    open spec fn view(&self) -> SetActionView {
        match *self {
            SetAction::SingleAssign { entity, key, value } => SetActionView::SingleAssign {
                entity,
                key,
                value: value@,
            },
            SetAction::Append { entity, value } => SetActionView::Append { entity, value: value@ },
            SetAction::Overwrite { entity, value } => SetActionView::Overwrite {
                entity,
                value: value@,
            },
        }
    }
}

/// The models of a sequence of projections.
pub open spec fn projections_view(items: Seq<Projection>) -> Seq<ProjectionView> {
    Seq::new(items.len(), |i: int| items[i]@)
}

/// The models of a sequence of nodes to create.
pub open spec fn node_specs_view(items: Seq<NodeSpec>) -> Seq<NodeSpecView> {
    Seq::new(items.len(), |i: int| items[i]@)
}

/// The models of a sequence of relationships to create.
pub open spec fn rel_specs_view(items: Seq<RelSpec>) -> Seq<RelSpecView> {
    Seq::new(items.len(), |i: int| items[i]@)
}

/// The models of a sequence of changes of properties.
pub open spec fn actions_view(items: Seq<SetAction>) -> Seq<SetActionView> {
    Seq::new(items.len(), |i: int| items[i]@)
}

/// The models of a sequence of expressions with the slots for their values.
pub open spec fn slotted_view(items: Seq<(Expr, Slot)>) -> Seq<(ExprView, Slot)> {
    Seq::new(items.len(), |i: int| (items[i].0@, items[i].1))
}

/// The model of an expression that may be absent.
pub open spec fn opt_expr_view(e: Option<Expr>) -> Option<ExprView> {
    match e {
        Some(e) => Some(e@),
        None => None,
    }
}

/// The operators that the planner can emit.
#[derive(Debug, PartialEq)]
pub enum LogicalPlan {
    /// The leaf: one row, the one that drives the plan.
    Argument,
    /// For each row of `src`, one row per node, with the node in `slot`.
    NodeScan { src: Box<LogicalPlan>, slot: usize, labels: Option<Token> },
    /// For each row of `src`, one row per relationship of the node in
    /// `src_slot` that matches; the relationship goes to `rel_slot` and the
    /// node at its other end to `dst_slot`.
    Expand {
        src: Box<LogicalPlan>,
        src_slot: usize,
        rel_slot: usize,
        dst_slot: usize,
        rel_type: Option<Token>,
        dir: Option<Dir>,
    },
    /// The rows of `src`; if there are none, one row with `slots` set to null.
    Optional { src: Box<LogicalPlan>, slots: Vec<Slot> },
    /// The rows of `src` for which the predicate holds.
    Selection { src: Box<LogicalPlan>, predicate: Expr },
    /// For each row of `src`, creates the nodes and relationships.
    Create { src: Box<LogicalPlan>, nodes: Vec<NodeSpec>, rels: Vec<RelSpec> },
    /// For each row of `src`, applies the changes of properties.
    SetProperties { src: Box<LogicalPlan>, updates: Vec<SetAction> },
    /// For each row of `lhs`, runs `rhs` if all the slots of `conditions` are
    /// non-null; otherwise hands the row on.
    ConditionalApply { lhs: Box<LogicalPlan>, rhs: Box<LogicalPlan>, conditions: Vec<Slot> },
    /// For each row of `lhs`, runs `rhs` if all the slots of `conditions` are
    /// null; otherwise hands the row on.
    AntiConditionalApply { lhs: Box<LogicalPlan>, rhs: Box<LogicalPlan>, conditions: Vec<Slot> },
    /// Groups the rows of `src` by the values of `grouping` and evaluates
    /// `aggregations` over each group. With no grouping there is one group.
    Aggregate {
        src: Box<LogicalPlan>,
        grouping: Vec<(Expr, Slot)>,
        aggregations: Vec<(Expr, Slot)>,
    },
    /// For each row of `src`, one row per element of the list, with the
    /// element in `alias`.
    Unwind { src: Box<LogicalPlan>, list_expr: Expr, alias: Slot },
    /// For each row of `src`, calls the procedure.
    Call { src: Box<LogicalPlan>, name: Token, args: Vec<Expr> },
    /// For each row of `outer`, the rows of `inner` for which the predicate
    /// holds.
    NestLoop { outer: Box<LogicalPlan>, inner: Box<LogicalPlan>, predicate: Expr },
    /// Evaluates the projections on each row of `src`.
    Project { src: Box<LogicalPlan>, projections: Vec<Projection> },
    /// The rows of `src`, ordered.
    Sort { src: Box<LogicalPlan>, sort_by: Vec<Expr> },
    /// The rows of `src` without the first `skip`, and at most `limit`.
    Limit { src: Box<LogicalPlan>, skip: Option<Expr>, limit: Option<Expr> },
    /// The root of a query that returns rows: it names the output fields.
    ProduceResult { src: Box<LogicalPlan>, fields: Vec<(Token, Slot)> },
}

/// The model of a logical plan: the same tree over sequences.
pub enum PlanView {
    Argument,
    NodeScan { src: Box<PlanView>, slot: usize, labels: Option<Token> },
    Expand {
        src: Box<PlanView>,
        src_slot: usize,
        rel_slot: usize,
        dst_slot: usize,
        rel_type: Option<Token>,
        dir: Option<Dir>,
    },
    Optional { src: Box<PlanView>, slots: Seq<Slot> },
    Selection { src: Box<PlanView>, predicate: ExprView },
    Create { src: Box<PlanView>, nodes: Seq<NodeSpecView>, rels: Seq<RelSpecView> },
    SetProperties { src: Box<PlanView>, updates: Seq<SetActionView> },
    ConditionalApply { lhs: Box<PlanView>, rhs: Box<PlanView>, conditions: Seq<Slot> },
    AntiConditionalApply { lhs: Box<PlanView>, rhs: Box<PlanView>, conditions: Seq<Slot> },
    Aggregate {
        src: Box<PlanView>,
        grouping: Seq<(ExprView, Slot)>,
        aggregations: Seq<(ExprView, Slot)>,
    },
    Unwind { src: Box<PlanView>, list_expr: ExprView, alias: Slot },
    Call { src: Box<PlanView>, name: Token, args: Seq<ExprView> },
    NestLoop { outer: Box<PlanView>, inner: Box<PlanView>, predicate: ExprView },
    Project { src: Box<PlanView>, projections: Seq<ProjectionView> },
    Sort { src: Box<PlanView>, sort_by: Seq<ExprView> },
    Limit { src: Box<PlanView>, skip: Option<ExprView>, limit: Option<ExprView> },
    ProduceResult { src: Box<PlanView>, fields: Seq<(Token, Slot)> },
}

/// The model of a logical plan.
pub open spec fn plan_model(p: LogicalPlan) -> PlanView
    decreases p,
{
    match p {
        LogicalPlan::Argument => PlanView::Argument,
        LogicalPlan::NodeScan { src, slot, labels } => PlanView::NodeScan {
            src: Box::new(plan_model(*src)),
            slot,
            labels,
        },
        LogicalPlan::Expand { src, src_slot, rel_slot, dst_slot, rel_type, dir } => PlanView::Expand {
            src: Box::new(plan_model(*src)),
            src_slot,
            rel_slot,
            dst_slot,
            rel_type,
            dir,
        },
        LogicalPlan::Optional { src, slots } => PlanView::Optional {
            src: Box::new(plan_model(*src)),
            slots: slots@,
        },
        LogicalPlan::Selection { src, predicate } => PlanView::Selection {
            src: Box::new(plan_model(*src)),
            predicate: predicate@,
        },
        LogicalPlan::Create { src, nodes, rels } => PlanView::Create {
            src: Box::new(plan_model(*src)),
            nodes: node_specs_view(nodes@),
            rels: rel_specs_view(rels@),
        },
        LogicalPlan::SetProperties { src, updates } => PlanView::SetProperties {
            src: Box::new(plan_model(*src)),
            updates: actions_view(updates@),
        },
        LogicalPlan::ConditionalApply { lhs, rhs, conditions } => PlanView::ConditionalApply {
            lhs: Box::new(plan_model(*lhs)),
            rhs: Box::new(plan_model(*rhs)),
            conditions: conditions@,
        },
        LogicalPlan::AntiConditionalApply { lhs, rhs, conditions } => PlanView::AntiConditionalApply {
            lhs: Box::new(plan_model(*lhs)),
            rhs: Box::new(plan_model(*rhs)),
            conditions: conditions@,
        },
        LogicalPlan::Aggregate { src, grouping, aggregations } => PlanView::Aggregate {
            src: Box::new(plan_model(*src)),
            grouping: slotted_view(grouping@),
            aggregations: slotted_view(aggregations@),
        },
        LogicalPlan::Unwind { src, list_expr, alias } => PlanView::Unwind {
            src: Box::new(plan_model(*src)),
            list_expr: list_expr@,
            alias,
        },
        LogicalPlan::Call { src, name, args } => PlanView::Call {
            src: Box::new(plan_model(*src)),
            name,
            args: exprs_view(args@),
        },
        LogicalPlan::NestLoop { outer, inner, predicate } => PlanView::NestLoop {
            outer: Box::new(plan_model(*outer)),
            inner: Box::new(plan_model(*inner)),
            predicate: predicate@,
        },
        LogicalPlan::Project { src, projections } => PlanView::Project {
            src: Box::new(plan_model(*src)),
            projections: projections_view(projections@),
        },
        LogicalPlan::Sort { src, sort_by } => PlanView::Sort {
            src: Box::new(plan_model(*src)),
            sort_by: exprs_view(sort_by@),
        },
        LogicalPlan::Limit { src, skip, limit } => PlanView::Limit {
            src: Box::new(plan_model(*src)),
            skip: opt_expr_view(skip),
            limit: opt_expr_view(limit),
        },
        LogicalPlan::ProduceResult { src, fields } => PlanView::ProduceResult {
            src: Box::new(plan_model(*src)),
            fields: fields@,
        },
    }
}

impl View for LogicalPlan {
    type V = PlanView;

    open spec fn view(&self) -> PlanView {
        plan_model(*self)
    }
}

} // verus!
