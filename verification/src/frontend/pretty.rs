//! Plans and expressions as text, for people who debug a query.

use vstd::prelude::*;
use crate::backend::{Token, Tokens};
use crate::frontend::expr::{
    entries_view, exprs_view, Expr, ExprView, MapEntryExpr, MapEntryView, Op,
};
use crate::frontend::plan::{
    actions_view, node_specs_view, opt_expr_view, projections_view, rel_specs_view, slotted_view,
    Dir, LogicalPlan, NodeSpec, NodeSpecView, PlanView, Projection, ProjectionView, RelSpec,
    RelSpecView, SetAction, SetActionView,
};
use crate::text::{decimal, push_decimal, signed_decimal, signed_decimal_string};
use crate::value::Slot;

verus! {

/// The texts `parts[from..]`, added to `acc` with `sep` between them.
pub open spec fn join_from(parts: Seq<Seq<char>>, sep: Seq<char>, from: int, acc: Seq<char>)
    -> Seq<char>
    decreases parts.len() - from,
{
    if 0 <= from < parts.len() {
        join_from(
            parts,
            sep,
            from + 1,
            if from > 0 {
                acc + sep
            } else {
                acc
            } + parts[from],
        )
    } else {
        acc
    }
}

/// The texts with `sep` between them.
pub open spec fn joined(parts: Seq<Seq<char>>, sep: Seq<char>) -> Seq<char> {
    join_from(parts, sep, 0, Seq::empty())
}

/// The views of the strings.
pub open spec fn strings_view(parts: Seq<String>) -> Seq<Seq<char>> {
    Seq::new(parts.len(), |i: int| parts[i]@)
}

/// The strings with `sep` between them.
pub fn join(parts: &Vec<String>, sep: &str) -> (out: String)
    ensures
        out@ == joined(strings_view(parts@), sep@),
{
    let mut out = String::new();
    let mut i: usize = 0;
    while i < parts.len()
        invariant
            i <= parts.len(),
            join_from(strings_view(parts@), sep@, i as int, out@) == joined(
                strings_view(parts@),
                sep@,
            ),
        decreases parts.len() - i,
    {
        if i > 0 {
            out.append(sep);
        }
        out.append(parts[i].as_str());
        i += 1;
    }
    out
}

/// The string of a token, or `?` for a token that the table does not hold.
pub open spec fn token_name(t: Seq<Seq<char>>, tok: Token) -> Seq<char> {
    if tok < t.len() {
        t[tok as int]
    } else {
        "?"@
    }
}

/// The string of a token.
pub fn name_of(t: &Tokens, tok: Token) -> (name: String)
    ensures
        name@ == token_name(t@, tok),
{
    match t.lookup(tok) {
        Some(s) => String::from_str(s),
        None => String::from_str("?"),
    }
}

/// A slot as text.
pub open spec fn slot_text(slot: Slot) -> Seq<char> {
    "Slot("@ + decimal(slot as nat) + ")"@
}

/// A slot as text.
pub fn slot_string(slot: Slot) -> (s: String)
    ensures
        s@ == slot_text(slot),
{
    let mut out = String::from_str("Slot(");
    push_decimal(&mut out, slot as u64);
    out.append(")");
    out
}

/// An operator as text.
pub open spec fn op_text(op: Op) -> Seq<char> {
    match op {
        Op::Eq => "="@,
        Op::NotEq => "<>"@,
        Op::Lt => "<"@,
        Op::Gt => ">"@,
        Op::LtEq => "<="@,
        Op::GtEq => ">="@,
        Op::Add => "+"@,
        Op::Sub => "-"@,
        Op::Mul => "*"@,
        Op::Div => "/"@,
        Op::Mod => "%"@,
    }
}

/// An operator as text.
fn op_str(op: Op) -> (s: &'static str)
    ensures
        s@ == op_text(op),
{
    match op {
        Op::Eq => "=",
        Op::NotEq => "<>",
        Op::Lt => "<",
        Op::Gt => ">",
        Op::LtEq => "<=",
        Op::GtEq => ">=",
        Op::Add => "+",
        Op::Sub => "-",
        Op::Mul => "*",
        Op::Div => "/",
        Op::Mod => "%",
    }
}

/// An expression as text.
pub open spec fn expr_text(e: ExprView, t: Seq<Seq<char>>) -> Seq<char>
    decreases e,
{
    match e {
        ExprView::And(items) => "("@ + joined(exprs_texts(items, t), " AND "@) + ")"@,
        ExprView::Or(items) => "("@ + joined(exprs_texts(items, t), " OR "@) + ")"@,
        ExprView::Not(inner) => "NOT "@ + expr_text(*inner, t),
        ExprView::Negate(inner) => "-"@ + expr_text(*inner, t),
        ExprView::BinaryOp { left, right, op } => "("@ + expr_text(*left, t) + " "@ + op_text(op)
            + " "@ + expr_text(*right, t) + ")"@,
        ExprView::Bool(b) => if b {
            "true"@
        } else {
            "false"@
        },
        ExprView::Int(n) => signed_decimal(n as int),
        ExprView::Float(s) => s,
        ExprView::String(s) => "\""@ + s + "\""@,
        ExprView::Null => "NULL"@,
        ExprView::MapLit(entries) => "{"@ + joined(entries_texts(entries, t), ", "@) + "}"@,
        ExprView::List(items) => "["@ + joined(exprs_texts(items, t), ", "@) + "]"@,
        ExprView::Prop(inner, key) => expr_text(*inner, t) + "."@ + token_name(t, key),
        ExprView::Slot(slot) => slot_text(slot),
        ExprView::FuncCall { name, args, aggregating } => token_name(t, name) + "("@ + joined(
            exprs_texts(args, t),
            ", "@,
        ) + ")"@,
        ExprView::HasLabel(slot, label) => slot_text(slot) + ":"@ + token_name(t, label),
    }
}

/// The texts of the expressions.
pub open spec fn exprs_texts(items: Seq<ExprView>, t: Seq<Seq<char>>) -> Seq<Seq<char>>
    decreases items,
{
    Seq::new(
        items.len(),
        |i: int|
            if 0 <= i < items.len() {
                expr_text(items[i], t)
            } else {
                Seq::empty()
            },
    )
}

/// The texts `key: value` of the entries of a map.
pub open spec fn entries_texts(entries: Seq<MapEntryView>, t: Seq<Seq<char>>) -> Seq<Seq<char>>
    decreases entries,
{
    Seq::new(
        entries.len(),
        |i: int|
            if 0 <= i < entries.len() {
                token_name(t, entries[i].key) + ": "@ + expr_text(entries[i].val, t)
            } else {
                Seq::empty()
            },
    )
}

impl Expr {
    /// This expression as text.
    pub fn fmt_pretty(&self, t: &Tokens) -> (s: String)
        ensures
            s@ == expr_text(self@, t@),
        decreases self, 1nat,
    {
        match self {
            Expr::And(items) => {
                let mut out = String::from_str("(");
                out.append(exprs_string(items, " AND ", t).as_str());
                out.append(")");
                out
            },
            Expr::Or(items) => {
                let mut out = String::from_str("(");
                out.append(exprs_string(items, " OR ", t).as_str());
                out.append(")");
                out
            },
            Expr::Not(inner) => {
                let mut out = String::from_str("NOT ");
                out.append(inner.fmt_pretty(t).as_str());
                out
            },
            Expr::Negate(inner) => {
                let mut out = String::from_str("-");
                out.append(inner.fmt_pretty(t).as_str());
                out
            },
            Expr::BinaryOp { left, right, op } => {
                let mut out = String::from_str("(");
                out.append(left.fmt_pretty(t).as_str());
                out.append(" ");
                out.append(op_str(*op));
                out.append(" ");
                out.append(right.fmt_pretty(t).as_str());
                out.append(")");
                out
            },
            Expr::Bool(b) => {
                if *b {
                    String::from_str("true")
                } else {
                    String::from_str("false")
                }
            },
            Expr::Int(n) => signed_decimal_string(*n),
            Expr::Float(s) => s.clone(),
            Expr::String(s) => {
                let mut out = String::from_str("\"");
                out.append(s.as_str());
                out.append("\"");
                out
            },
            Expr::Null => String::from_str("NULL"),
            Expr::MapLit(entries) => {
                let mut out = String::from_str("{");
                out.append(entries_string(entries, t).as_str());
                out.append("}");
                out
            },
            Expr::List(items) => {
                let mut out = String::from_str("[");
                out.append(exprs_string(items, ", ", t).as_str());
                out.append("]");
                out
            },
            Expr::Prop(inner, key) => {
                let mut out = inner.fmt_pretty(t);
                out.append(".");
                out.append(name_of(t, *key).as_str());
                out
            },
            Expr::Slot(slot) => slot_string(*slot),
            Expr::FuncCall { name, args, aggregating } => {
                let mut out = name_of(t, *name);
                out.append("(");
                out.append(exprs_string(args, ", ", t).as_str());
                out.append(")");
                out
            },
            Expr::HasLabel(slot, label) => {
                let mut out = slot_string(*slot);
                out.append(":");
                out.append(name_of(t, *label).as_str());
                out
            },
        }
    }
}

/// The expressions as text, with `sep` between them.
pub fn exprs_string(items: &Vec<Expr>, sep: &str, t: &Tokens) -> (s: String)
    ensures
        s@ == joined(exprs_texts(exprs_view(items@), t@), sep@),
    decreases items, 0nat,
{
    let mut parts: Vec<String> = Vec::new();
    let mut i: usize = 0;
    while i < items.len()
        invariant
            i <= items.len(),
            parts@.len() == i,
            forall|j: int| 0 <= j < i ==> parts@[j]@ == expr_text(items@[j]@, t@),
        decreases items.len() - i,
    {
        parts.push(items[i].fmt_pretty(t));
        i += 1;
    }
    assert(strings_view(parts@) =~= exprs_texts(exprs_view(items@), t@));
    join(&parts, sep)
}

/// The entries of a map as text.
pub fn entries_string(entries: &Vec<MapEntryExpr>, t: &Tokens) -> (s: String)
    ensures
        s@ == joined(entries_texts(entries_view(entries@), t@), ", "@),
    decreases entries, 0nat,
{
    let mut parts: Vec<String> = Vec::new();
    let mut i: usize = 0;
    while i < entries.len()
        invariant
            i <= entries.len(),
            parts@.len() == i,
            forall|j: int|
                0 <= j < i ==> parts@[j]@ == token_name(t@, entries@[j].key) + ": "@ + expr_text(
                    entries@[j].val@,
                    t@,
                ),
        decreases entries.len() - i,
    {
        let mut part = name_of(t, entries[i].key);
        part.append(": ");
        part.append(entries[i].val.fmt_pretty(t).as_str());
        parts.push(part);
        i += 1;
    }
    assert(strings_view(parts@) =~= entries_texts(entries_view(entries@), t@));
    join(&parts, ", ")
}

/// The texts of the slots.
pub open spec fn slots_texts(slots: Seq<Slot>) -> Seq<Seq<char>> {
    Seq::new(slots.len(), |i: int| slot_text(slots[i]))
}

/// The slots as text.
fn slots_string(slots: &Vec<Slot>) -> (s: String)
    ensures
        s@ == joined(slots_texts(slots@), ", "@),
{
    let mut parts: Vec<String> = Vec::new();
    let mut i: usize = 0;
    while i < slots.len()
        invariant
            i <= slots.len(),
            parts@.len() == i,
            forall|j: int| 0 <= j < i ==> parts@[j]@ == slot_text(slots@[j]),
        decreases slots.len() - i,
    {
        parts.push(slot_string(slots[i]));
        i += 1;
    }
    assert(strings_view(parts@) =~= slots_texts(slots@));
    join(&parts, ", ")
}

/// The names of the tokens.
pub open spec fn names_texts(toks: Seq<Token>, t: Seq<Seq<char>>) -> Seq<Seq<char>> {
    Seq::new(toks.len(), |i: int| token_name(t, toks[i]))
}

/// The names of the tokens as text.
fn names_string(toks: &Vec<Token>, t: &Tokens) -> (s: String)
    ensures
        s@ == joined(names_texts(toks@, t@), ", "@),
{
    let mut parts: Vec<String> = Vec::new();
    let mut i: usize = 0;
    while i < toks.len()
        invariant
            i <= toks.len(),
            parts@.len() == i,
            forall|j: int| 0 <= j < i ==> parts@[j]@ == token_name(t@, toks@[j]),
        decreases toks.len() - i,
    {
        parts.push(name_of(t, toks[i]));
        i += 1;
    }
    assert(strings_view(parts@) =~= names_texts(toks@, t@));
    join(&parts, ", ")
}

/// The names of the fields of a result.
pub open spec fn fields_texts(fields: Seq<(Token, Slot)>, t: Seq<Seq<char>>) -> Seq<Seq<char>> {
    Seq::new(fields.len(), |i: int| token_name(t, fields[i].0))
}

/// The names of the fields of a result as text.
fn fields_string(fields: &Vec<(Token, Slot)>, t: &Tokens) -> (s: String)
    ensures
        s@ == joined(fields_texts(fields@, t@), ", "@),
{
    let mut parts: Vec<String> = Vec::new();
    let mut i: usize = 0;
    while i < fields.len()
        invariant
            i <= fields.len(),
            parts@.len() == i,
            forall|j: int| 0 <= j < i ==> parts@[j]@ == token_name(t@, fields@[j].0),
        decreases fields.len() - i,
    {
        parts.push(name_of(t, fields[i].0));
        i += 1;
    }
    assert(strings_view(parts@) =~= fields_texts(fields@, t@));
    join(&parts, ", ")
}

/// A projection as text.
pub open spec fn projection_text(p: ProjectionView, t: Seq<Seq<char>>) -> Seq<char> {
    "Project("@ + expr_text(p.expr, t) + " => "@ + slot_text(p.dst) + " as `"@ + token_name(
        t,
        p.alias,
    ) + "`"@
}

impl Projection {
    /// This projection as text.
    pub fn fmt_pretty(&self, t: &Tokens) -> (s: String)
        ensures
            s@ == projection_text(self@, t@),
    {
        let mut out = String::from_str("Project(");
        out.append(self.expr.fmt_pretty(t).as_str());
        out.append(" => ");
        out.append(slot_string(self.dst).as_str());
        out.append(" as `");
        out.append(name_of(t, self.alias).as_str());
        out.append("`");
        out
    }
}

/// The texts of the projections.
pub open spec fn projections_texts(ps: Seq<ProjectionView>, t: Seq<Seq<char>>) -> Seq<Seq<char>> {
    Seq::new(ps.len(), |i: int| projection_text(ps[i], t))
}

/// The projections as text.
fn projections_string(ps: &Vec<Projection>, t: &Tokens) -> (s: String)
    ensures
        s@ == joined(projections_texts(projections_view(ps@), t@), ", "@),
{
    let mut parts: Vec<String> = Vec::new();
    let mut i: usize = 0;
    while i < ps.len()
        invariant
            i <= ps.len(),
            parts@.len() == i,
            forall|j: int| 0 <= j < i ==> parts@[j]@ == projection_text(ps@[j]@, t@),
        decreases ps.len() - i,
    {
        parts.push(ps[i].fmt_pretty(t));
        i += 1;
    }
    assert(strings_view(parts@) =~= projections_texts(projections_view(ps@), t@));
    join(&parts, ", ")
}

/// A node to create as text.
pub open spec fn node_spec_text(n: NodeSpecView, t: Seq<Seq<char>>) -> Seq<char> {
    "NodeSpec("@ + slot_text(n.slot) + ", ["@ + joined(names_texts(n.labels, t), ", "@) + "], {"@
        + joined(entries_texts(n.props, t), ", "@) + "})"@
}

/// The texts of the nodes to create.
pub open spec fn node_specs_texts(ns: Seq<NodeSpecView>, t: Seq<Seq<char>>) -> Seq<Seq<char>> {
    Seq::new(ns.len(), |i: int| node_spec_text(ns[i], t))
}

/// The nodes to create as text.
fn node_specs_string(ns: &Vec<NodeSpec>, t: &Tokens) -> (s: String)
    ensures
        s@ == joined(node_specs_texts(node_specs_view(ns@), t@), ", "@),
{
    let mut parts: Vec<String> = Vec::new();
    let mut i: usize = 0;
    while i < ns.len()
        invariant
            i <= ns.len(),
            parts@.len() == i,
            forall|j: int| 0 <= j < i ==> parts@[j]@ == node_spec_text(ns@[j]@, t@),
        decreases ns.len() - i,
    {
        let mut part = String::from_str("NodeSpec(");
        part.append(slot_string(ns[i].slot).as_str());
        part.append(", [");
        part.append(names_string(&ns[i].labels, t).as_str());
        part.append("], {");
        part.append(entries_string(&ns[i].props, t).as_str());
        part.append("})");
        parts.push(part);
        i += 1;
    }
    assert(strings_view(parts@) =~= node_specs_texts(node_specs_view(ns@), t@));
    join(&parts, ", ")
}

/// A relationship to create as text.
pub open spec fn rel_spec_text(r: RelSpecView, t: Seq<Seq<char>>) -> Seq<char> {
    "RelSpec("@ + slot_text(r.slot) + ", "@ + token_name(t, r.rel_type) + ", "@ + slot_text(
        r.start_node_slot,
    ) + " -> "@ + slot_text(r.end_node_slot) + ", {"@ + joined(entries_texts(r.props, t), ", "@)
        + "})"@
}

/// The texts of the relationships to create.
pub open spec fn rel_specs_texts(rs: Seq<RelSpecView>, t: Seq<Seq<char>>) -> Seq<Seq<char>> {
    Seq::new(rs.len(), |i: int| rel_spec_text(rs[i], t))
}

/// The relationships to create as text.
fn rel_specs_string(rs: &Vec<RelSpec>, t: &Tokens) -> (s: String)
    ensures
        s@ == joined(rel_specs_texts(rel_specs_view(rs@), t@), ", "@),
{
    let mut parts: Vec<String> = Vec::new();
    let mut i: usize = 0;
    while i < rs.len()
        invariant
            i <= rs.len(),
            parts@.len() == i,
            forall|j: int| 0 <= j < i ==> parts@[j]@ == rel_spec_text(rs@[j]@, t@),
        decreases rs.len() - i,
    {
        let mut part = String::from_str("RelSpec(");
        part.append(slot_string(rs[i].slot).as_str());
        part.append(", ");
        part.append(name_of(t, rs[i].rel_type).as_str());
        part.append(", ");
        part.append(slot_string(rs[i].start_node_slot).as_str());
        part.append(" -> ");
        part.append(slot_string(rs[i].end_node_slot).as_str());
        part.append(", {");
        part.append(entries_string(&rs[i].props, t).as_str());
        part.append("})");
        parts.push(part);
        i += 1;
    }
    assert(strings_view(parts@) =~= rel_specs_texts(rel_specs_view(rs@), t@));
    join(&parts, ", ")
}

/// A change of properties as text.
pub open spec fn action_text(a: SetActionView, t: Seq<Seq<char>>) -> Seq<char> {
    match a {
        SetActionView::SingleAssign { entity, key, value } => slot_text(entity) + "."@
            + token_name(t, key) + " = "@ + expr_text(value, t),
        SetActionView::Append { entity, value } => slot_text(entity) + " += "@ + expr_text(
            value,
            t,
        ),
        SetActionView::Overwrite { entity, value } => slot_text(entity) + " = "@ + expr_text(
            value,
            t,
        ),
    }
}

/// A change of properties as text.
fn action_string(a: &SetAction, t: &Tokens) -> (s: String)
    ensures
        s@ == action_text(a@, t@),
{
    match a {
        SetAction::SingleAssign { entity, key, value } => {
            let mut out = slot_string(*entity);
            out.append(".");
            out.append(name_of(t, *key).as_str());
            out.append(" = ");
            out.append(value.fmt_pretty(t).as_str());
            out
        },
        SetAction::Append { entity, value } => {
            let mut out = slot_string(*entity);
            out.append(" += ");
            out.append(value.fmt_pretty(t).as_str());
            out
        },
        SetAction::Overwrite { entity, value } => {
            let mut out = slot_string(*entity);
            out.append(" = ");
            out.append(value.fmt_pretty(t).as_str());
            out
        },
    }
}

/// The texts of the changes of properties.
pub open spec fn actions_texts(items: Seq<SetActionView>, t: Seq<Seq<char>>) -> Seq<Seq<char>> {
    Seq::new(items.len(), |i: int| action_text(items[i], t))
}

/// The changes of properties as text.
fn actions_string(items: &Vec<SetAction>, t: &Tokens) -> (s: String)
    ensures
        s@ == joined(actions_texts(actions_view(items@), t@), ", "@),
{
    let mut parts: Vec<String> = Vec::new();
    let mut i: usize = 0;
    while i < items.len()
        invariant
            i <= items.len(),
            parts@.len() == i,
            forall|j: int| 0 <= j < i ==> parts@[j]@ == action_text(items@[j]@, t@),
        decreases items.len() - i,
    {
        parts.push(action_string(&items[i], t));
        i += 1;
    }
    assert(strings_view(parts@) =~= actions_texts(actions_view(items@), t@));
    join(&parts, ", ")
}

/// The texts `expr => slot` of expressions with their slots.
pub open spec fn slotted_texts(items: Seq<(ExprView, Slot)>, t: Seq<Seq<char>>) -> Seq<
    Seq<char>,
> {
    Seq::new(items.len(), |i: int| expr_text(items[i].0, t) + " => "@ + slot_text(items[i].1))
}

/// Expressions with their slots as text.
fn slotted_string(items: &Vec<(Expr, Slot)>, t: &Tokens) -> (s: String)
    ensures
        s@ == joined(slotted_texts(slotted_view(items@), t@), ", "@),
{
    let mut parts: Vec<String> = Vec::new();
    let mut i: usize = 0;
    while i < items.len()
        invariant
            i <= items.len(),
            parts@.len() == i,
            forall|j: int|
                0 <= j < i ==> parts@[j]@ == expr_text(items@[j].0@, t@) + " => "@ + slot_text(
                    items@[j].1,
                ),
        decreases items.len() - i,
    {
        let mut part = items[i].0.fmt_pretty(t);
        part.append(" => ");
        part.append(slot_string(items[i].1).as_str());
        parts.push(part);
        i += 1;
    }
    assert(strings_view(parts@) =~= slotted_texts(slotted_view(items@), t@));
    join(&parts, ", ")
}

/// An expression that may be absent as text.
pub open spec fn opt_expr_text(e: Option<ExprView>, t: Seq<Seq<char>>) -> Seq<char> {
    match e {
        Some(e) => "Some("@ + expr_text(e, t) + ")"@,
        None => "None"@,
    }
}

/// An expression that may be absent as text.
fn opt_expr_string(e: &Option<Expr>, t: &Tokens) -> (s: String)
    ensures
        s@ == opt_expr_text(opt_expr_view(*e), t@),
{
    match e {
        Some(e) => {
            let mut out = String::from_str("Some(");
            out.append(e.fmt_pretty(t).as_str());
            out.append(")");
            out
        },
        None => String::from_str("None"),
    }
}

/// A direction that may be absent as text.
pub open spec fn dir_text(dir: Option<Dir>) -> Seq<char> {
    match dir {
        Some(Dir::Out) => "Some(Out)"@,
        Some(Dir::In) => "Some(In)"@,
        None => "None"@,
    }
}

/// A direction that may be absent as text.
fn dir_str(dir: Option<Dir>) -> (s: &'static str)
    ensures
        s@ == dir_text(dir),
{
    match dir {
        Some(Dir::Out) => "Some(Out)",
        Some(Dir::In) => "Some(In)",
        None => "None",
    }
}

/// The name of a token that may be absent; `none` where it is.
pub open spec fn opt_name_text(tok: Option<Token>, t: Seq<Seq<char>>, none: Seq<char>) -> Seq<
    char,
> {
    match tok {
        Some(tok) => token_name(t, tok),
        None => none,
    }
}

/// The name of a token that may be absent.
fn opt_name_string(tok: Option<Token>, t: &Tokens, none: &str) -> (s: String)
    ensures
        s@ == opt_name_text(tok, t@, none@),
{
    match tok {
        Some(tok) => name_of(t, tok),
        None => String::from_str(none),
    }
}

/// A plan as text, with the lines below the first indented by `ind`.
pub open spec fn plan_text(p: PlanView, ind: Seq<char>, t: Seq<Seq<char>>) -> Seq<char>
    decreases p,
{
    let next = ind + "  "@;
    match p {
        PlanView::Argument => "Argument()"@,
        PlanView::ProduceResult { src, fields } => "ProduceResult(\n"@ + next + "src="@
            + plan_text(*src, next + "  "@, t) + ",\n"@ + next + "fields=["@ + joined(
            fields_texts(fields, t),
            ", "@,
        ) + "])"@,
        PlanView::Project { src, projections } => "Project(\n"@ + next + "src="@ + plan_text(
            *src,
            next + "  "@,
            t,
        ) + ",\n"@ + next + "projections=["@ + joined(projections_texts(projections, t), ", "@)
            + "])"@,
        PlanView::NodeScan { src, slot, labels } => "NodeScan(\n"@ + ind + "src="@ + plan_text(
            *src,
            next,
            t,
        ) + "\n"@ + ind + "slot="@ + slot_text(slot) + "\n"@ + ind + "labels=["@ + opt_name_text(
            labels,
            t,
            ""@,
        ) + "])"@,
        PlanView::Expand { src, src_slot, rel_slot, dst_slot, rel_type, dir } => "Expand(\n"@ + ind
            + "src="@ + plan_text(*src, next, t) + "\n"@ + ind + "src_slot="@ + slot_text(src_slot)
            + "\n"@ + ind + "rel_slot="@ + slot_text(rel_slot) + "\n"@ + ind + "dst_slot="@
            + slot_text(dst_slot) + ",\n"@ + ind + "rel_type="@ + opt_name_text(
            rel_type,
            t,
            "<any>"@,
        ) + ",\n"@ + ind + "dir="@ + dir_text(dir) + ")"@,
        PlanView::Create { src, nodes, rels } => "Create(\n"@ + next + "src="@ + plan_text(
            *src,
            next + "  "@,
            t,
        ) + ",\n"@ + next + "nodes=["@ + joined(node_specs_texts(nodes, t), ", "@) + "],\n"@ + next
            + "rels=["@ + joined(rel_specs_texts(rels, t), ", "@) + "])"@,
        PlanView::Selection { src, predicate } => "Selection(\n"@ + next + "src="@ + plan_text(
            *src,
            next,
            t,
        ) + "\n"@ + next + "predicate="@ + expr_text(predicate, t) + ")"@,
        PlanView::Limit { src, skip, limit } => "Limit(\n"@ + next + "src="@ + plan_text(
            *src,
            next,
            t,
        ) + "\n"@ + next + "skip="@ + opt_expr_text(skip, t) + ",\n"@ + next + "limit="@
            + opt_expr_text(limit, t) + ")"@,
        PlanView::Sort { src, sort_by } => "Sort(\n"@ + next + "src="@ + plan_text(*src, next, t)
            + "\n"@ + next + "by=["@ + joined(exprs_texts(sort_by, t), ", "@) + "])"@,
        PlanView::Aggregate { src, grouping, aggregations } => "Aggregate(\n"@ + ind + "src="@
            + plan_text(*src, next, t) + "\n"@ + ind + "grouping=["@ + joined(
            slotted_texts(grouping, t),
            ", "@,
        ) + "]\n"@ + ind + "aggregations=["@ + joined(slotted_texts(aggregations, t), ", "@)
            + "])"@,
        PlanView::ConditionalApply { lhs, rhs, conditions } => "ConditionalApply(\n"@ + ind
            + "lhs="@ + plan_text(*lhs, next, t) + "\n"@ + ind + "rhs="@ + plan_text(*rhs, next, t)
            + "\n"@ + ind + "conditions=["@ + joined(slots_texts(conditions), ", "@) + "])"@,
        PlanView::AntiConditionalApply { lhs, rhs, conditions } => "AntiConditionalApply(\n"@ + ind
            + "lhs="@ + plan_text(*lhs, next, t) + "\n"@ + ind + "rhs="@ + plan_text(*rhs, next, t)
            + "\n"@ + ind + "conditions=["@ + joined(slots_texts(conditions), ", "@) + "])"@,
        PlanView::Optional { src, slots } => "Optional(\n"@ + ind + "src="@ + plan_text(
            *src,
            next,
            t,
        ) + "\n"@ + ind + "slots=["@ + joined(slots_texts(slots), ", "@) + "])"@,
        PlanView::SetProperties { src, updates } => "SetProperties(\n"@ + ind + "src="@
            + plan_text(*src, next, t) + "\n"@ + ind + "updates=["@ + joined(
            actions_texts(updates, t),
            ", "@,
        ) + "])"@,
        PlanView::NestLoop { outer, inner, predicate } => "NestLoop(\n"@ + ind + "outer="@
            + plan_text(*outer, next, t) + "\n"@ + ind + "inner="@ + plan_text(*inner, next, t)
            + "\n"@ + ind + "predicate="@ + expr_text(predicate, t) + ")"@,
        PlanView::Unwind { src, list_expr, alias } => "Unwind(\n"@ + ind + "src="@ + plan_text(
            *src,
            next,
            t,
        ) + "\n"@ + ind + "list="@ + expr_text(list_expr, t) + "\n"@ + ind + "alias="@ + slot_text(
            alias,
        ) + ")"@,
        PlanView::Call { src, name, args } => "Call(\n"@ + ind + "src="@ + plan_text(*src, next, t)
            + "\n"@ + ind + "name="@ + token_name(t, name) + "\n"@ + ind + "args=["@ + joined(
            exprs_texts(args, t),
            ", "@,
        ) + "])"@,
    }
}

impl LogicalPlan {
    /// This plan as text, with the lines below the first indented by `ind`.
    pub fn fmt_pretty(&self, ind: &str, t: &Tokens) -> (s: String)
        ensures
            s@ == plan_text(self@, ind@, t@),
        decreases self,
    {
        let mut next_indent = String::from_str(ind);
        next_indent.append("  ");
        let next = next_indent.as_str();
        match self {
            LogicalPlan::Argument => String::from_str("Argument()"),
            LogicalPlan::ProduceResult { src, fields } => {
                let mut deeper = String::from_str(next);
                deeper.append("  ");
                let mut out = String::from_str("ProduceResult(\n");
                out.append(next);
                out.append("src=");
                out.append(src.fmt_pretty(deeper.as_str(), t).as_str());
                out.append(",\n");
                out.append(next);
                out.append("fields=[");
                out.append(fields_string(fields, t).as_str());
                out.append("])");
                out
            },
            LogicalPlan::Project { src, projections } => {
                let mut deeper = String::from_str(next);
                deeper.append("  ");
                let mut out = String::from_str("Project(\n");
                out.append(next);
                out.append("src=");
                out.append(src.fmt_pretty(deeper.as_str(), t).as_str());
                out.append(",\n");
                out.append(next);
                out.append("projections=[");
                out.append(projections_string(projections, t).as_str());
                out.append("])");
                out
            },
            LogicalPlan::NodeScan { src, slot, labels } => {
                let mut out = String::from_str("NodeScan(\n");
                out.append(ind);
                out.append("src=");
                out.append(src.fmt_pretty(next, t).as_str());
                out.append("\n");
                out.append(ind);
                out.append("slot=");
                out.append(slot_string(*slot).as_str());
                out.append("\n");
                out.append(ind);
                out.append("labels=[");
                out.append(opt_name_string(*labels, t, "").as_str());
                out.append("])");
                out
            },
            LogicalPlan::Expand { src, src_slot, rel_slot, dst_slot, rel_type, dir } => {
                let mut out = String::from_str("Expand(\n");
                out.append(ind);
                out.append("src=");
                out.append(src.fmt_pretty(next, t).as_str());
                out.append("\n");
                out.append(ind);
                out.append("src_slot=");
                out.append(slot_string(*src_slot).as_str());
                out.append("\n");
                out.append(ind);
                out.append("rel_slot=");
                out.append(slot_string(*rel_slot).as_str());
                out.append("\n");
                out.append(ind);
                out.append("dst_slot=");
                out.append(slot_string(*dst_slot).as_str());
                out.append(",\n");
                out.append(ind);
                out.append("rel_type=");
                out.append(opt_name_string(*rel_type, t, "<any>").as_str());
                out.append(",\n");
                out.append(ind);
                out.append("dir=");
                out.append(dir_str(*dir));
                out.append(")");
                out
            },
            LogicalPlan::Create { src, nodes, rels } => {
                let mut deeper = String::from_str(next);
                deeper.append("  ");
                let mut out = String::from_str("Create(\n");
                out.append(next);
                out.append("src=");
                out.append(src.fmt_pretty(deeper.as_str(), t).as_str());
                out.append(",\n");
                out.append(next);
                out.append("nodes=[");
                out.append(node_specs_string(nodes, t).as_str());
                out.append("],\n");
                out.append(next);
                out.append("rels=[");
                out.append(rel_specs_string(rels, t).as_str());
                out.append("])");
                out
            },
            LogicalPlan::Selection { src, predicate } => {
                let mut out = String::from_str("Selection(\n");
                out.append(next);
                out.append("src=");
                out.append(src.fmt_pretty(next, t).as_str());
                out.append("\n");
                out.append(next);
                out.append("predicate=");
                out.append(predicate.fmt_pretty(t).as_str());
                out.append(")");
                out
            },
            LogicalPlan::Limit { src, skip, limit } => {
                let mut out = String::from_str("Limit(\n");
                out.append(next);
                out.append("src=");
                out.append(src.fmt_pretty(next, t).as_str());
                out.append("\n");
                out.append(next);
                out.append("skip=");
                out.append(opt_expr_string(skip, t).as_str());
                out.append(",\n");
                out.append(next);
                out.append("limit=");
                out.append(opt_expr_string(limit, t).as_str());
                out.append(")");
                out
            },
            LogicalPlan::Sort { src, sort_by } => {
                let mut out = String::from_str("Sort(\n");
                out.append(next);
                out.append("src=");
                out.append(src.fmt_pretty(next, t).as_str());
                out.append("\n");
                out.append(next);
                out.append("by=[");
                out.append(exprs_string(sort_by, ", ", t).as_str());
                out.append("])");
                out
            },
            LogicalPlan::Aggregate { src, grouping, aggregations } => {
                let mut out = String::from_str("Aggregate(\n");
                out.append(ind);
                out.append("src=");
                out.append(src.fmt_pretty(next, t).as_str());
                out.append("\n");
                out.append(ind);
                out.append("grouping=[");
                out.append(slotted_string(grouping, t).as_str());
                out.append("]\n");
                out.append(ind);
                out.append("aggregations=[");
                out.append(slotted_string(aggregations, t).as_str());
                out.append("])");
                out
            },
            LogicalPlan::ConditionalApply { lhs, rhs, conditions } => {
                let mut out = String::from_str("ConditionalApply(\n");
                out.append(ind);
                out.append("lhs=");
                out.append(lhs.fmt_pretty(next, t).as_str());
                out.append("\n");
                out.append(ind);
                out.append("rhs=");
                out.append(rhs.fmt_pretty(next, t).as_str());
                out.append("\n");
                out.append(ind);
                out.append("conditions=[");
                out.append(slots_string(conditions).as_str());
                out.append("])");
                out
            },
            LogicalPlan::AntiConditionalApply { lhs, rhs, conditions } => {
                let mut out = String::from_str("AntiConditionalApply(\n");
                out.append(ind);
                out.append("lhs=");
                out.append(lhs.fmt_pretty(next, t).as_str());
                out.append("\n");
                out.append(ind);
                out.append("rhs=");
                out.append(rhs.fmt_pretty(next, t).as_str());
                out.append("\n");
                out.append(ind);
                out.append("conditions=[");
                out.append(slots_string(conditions).as_str());
                out.append("])");
                out
            },
            LogicalPlan::Optional { src, slots } => {
                let mut out = String::from_str("Optional(\n");
                out.append(ind);
                out.append("src=");
                out.append(src.fmt_pretty(next, t).as_str());
                out.append("\n");
                out.append(ind);
                out.append("slots=[");
                out.append(slots_string(slots).as_str());
                out.append("])");
                out
            },
            LogicalPlan::SetProperties { src, updates } => {
                let mut out = String::from_str("SetProperties(\n");
                out.append(ind);
                out.append("src=");
                out.append(src.fmt_pretty(next, t).as_str());
                out.append("\n");
                out.append(ind);
                out.append("updates=[");
                out.append(actions_string(updates, t).as_str());
                out.append("])");
                out
            },
            LogicalPlan::NestLoop { outer, inner, predicate } => {
                let mut out = String::from_str("NestLoop(\n");
                out.append(ind);
                out.append("outer=");
                out.append(outer.fmt_pretty(next, t).as_str());
                out.append("\n");
                out.append(ind);
                out.append("inner=");
                out.append(inner.fmt_pretty(next, t).as_str());
                out.append("\n");
                out.append(ind);
                out.append("predicate=");
                out.append(predicate.fmt_pretty(t).as_str());
                out.append(")");
                out
            },
            LogicalPlan::Unwind { src, list_expr, alias } => {
                let mut out = String::from_str("Unwind(\n");
                out.append(ind);
                out.append("src=");
                out.append(src.fmt_pretty(next, t).as_str());
                out.append("\n");
                out.append(ind);
                out.append("list=");
                out.append(list_expr.fmt_pretty(t).as_str());
                out.append("\n");
                out.append(ind);
                out.append("alias=");
                out.append(slot_string(*alias).as_str());
                out.append(")");
                out
            },
            LogicalPlan::Call { src, name, args } => {
                let mut out = String::from_str("Call(\n");
                out.append(ind);
                out.append("src=");
                out.append(src.fmt_pretty(next, t).as_str());
                out.append("\n");
                out.append(ind);
                out.append("name=");
                out.append(name_of(t, *name).as_str());
                out.append("\n");
                out.append(ind);
                out.append("args=[");
                out.append(exprs_string(args, ", ", t).as_str());
                out.append("])");
                out
            },
        }
    }
}

} // verus!
