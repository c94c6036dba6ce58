//! Rows and the values in their slots.

use vstd::prelude::*;
use crate::text::{decimal, push_decimal};

verus! {

/// Index of a value in a row.
pub type Slot = usize;

/// The types that a function of the backend takes and returns.
#[derive(Clone, Copy, Debug, PartialEq, Eq)]
pub enum Type {
    Any,
    Integer,
    Float,
    String,
    Boolean,
    Node,
    Rel,
    List,
    Mapping,
}

/// A value in a slot of a row.
#[derive(Debug, Clone)]
pub enum Val {
    Null,
    String(String),
    Node(usize),
    Rel { node: usize, rel_index: usize },
}

impl Val {
    /// The id of the node that this value is.
    pub fn as_node_id(&self) -> (id: usize)
        requires
            self is Node,
        ensures
            id == self->Node_0,
    {
        match self {
            Val::Node(id) => *id,
            _ => vstd::pervasive::unreached(),
        }
    }

    /// The text that shows this value to a user.
    pub open spec fn text(&self) -> Seq<char> {
        match self {
            Val::Null => "NULL"@,
            Val::String(s) => s@,
            Val::Node(id) => "Node("@ + decimal(*id as nat) + ")"@,
            Val::Rel { node, rel_index } => "Rel("@ + decimal(*node as nat) + "/"@ + decimal(
                *rel_index as nat,
            ) + ")"@,
        }
    }

    /// The text that shows this value to a user.
    pub fn to_text(&self) -> (s: String)
        ensures
            s@ == self.text(),
    {
        match self {
            Val::Null => String::from_str("NULL"),
            Val::String(s) => s.clone(),
            Val::Node(id) => {
                let mut out = String::from_str("Node(");
                push_decimal(&mut out, *id as u64);
                out.append(")");
                out
            },
            Val::Rel { node, rel_index } => {
                let mut out = String::from_str("Rel(");
                push_decimal(&mut out, *node as u64);
                out.append("/");
                push_decimal(&mut out, *rel_index as u64);
                out.append(")");
                out
            },
        }
    }
}

/// The values that the operators of one plan share.
#[derive(Debug)]
pub struct Row {
    pub slots: Vec<Val>,
}

} // verus!
