//! The parser and the logical planner.

pub mod call_stmt;
pub mod context;
pub mod create_stmt;
pub mod expr;
pub mod expr_planner;
pub mod growth;
pub mod labels;
pub mod lexer;
pub mod match_stmt;
pub mod merge_stmt;
pub mod naming;
pub mod parse_expr;
pub mod parse_pattern;
pub mod parse_shape;
pub mod parser;
pub mod pattern;
pub mod pattern_builder;
pub mod plan;
pub mod pretty;
pub mod query;
pub mod scope;
pub mod set_stmt;
pub mod shape;
pub mod syntax;
pub mod unwind_stmt;
pub mod with_stmt;

pub use crate::frontend::context::PlanningContext;
pub use crate::frontend::expr::{Expr, MapEntryExpr, Op};
pub use crate::frontend::scope::Scope;
pub use crate::frontend::plan::{Dir, LogicalPlan, NodeSpec, Projection, RelSpec, RelType, SetAction};
pub use crate::frontend::syntax::{ParseNode, Rule};
pub use crate::frontend::pattern::{PatternGraph, PatternNode, PatternRel};
pub use crate::frontend::parser::CypherParser;
pub use crate::frontend::query::Frontend;
