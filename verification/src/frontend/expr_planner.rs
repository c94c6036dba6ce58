//! The expression planner: it turns the parse tree of an expression into an
//! `Expr`, and gives a slot to each name on the way.

use vstd::prelude::*;
use crate::backend::{intern_table, intern_token, BackendDesc, FuncType, Token, Tokens};
use crate::error::{Error, ErrorKind};
use crate::frontend::expr::{
    entries_view, exprs_view, lemma_entries_view_push, lemma_exprs_view_push, Expr, ExprView,
    MapEntryExpr, MapEntryView, Op,
};
use crate::frontend::context::{ContextView, PlanningContext};
use crate::frontend::scope::{Scope, ScopeView};
use crate::frontend::syntax::{trees_view, ParseNode, ParseTree, Rule};
use crate::text::{chars_of, string_of};

verus! {

/// What names mean at one point of planning: the table of tokens and the
/// scope.
pub struct Names {
    pub tokens: Seq<Seq<char>>,
    pub scope: ScopeView,
}

impl Names {
    /// The names once `text` has been interned.
    pub open spec fn tokenize(self, text: Seq<char>) -> Names {
        Names { tokens: intern_table(self.tokens, text), scope: self.scope }
    }

    /// The token of `text`.
    pub open spec fn token(self, text: Seq<char>) -> Token {
        intern_token(self.tokens, text) as usize
    }

    /// The names once the slot of the token has been asked for.
    pub open spec fn with_slot(self, tok: Token) -> Names {
        Names { tokens: self.tokens, scope: self.scope.with_slot(tok) }
    }

    /// The slot of the token.
    pub open spec fn slot_for(self, tok: Token) -> usize {
        self.scope.slot_for(tok) as usize
    }

    /// The names once the token has been declared.
    pub open spec fn declare(self, tok: Token) -> Names {
        Names { tokens: self.tokens, scope: self.scope.declare(tok) }
    }
}

/// The names that a table of tokens and a scope hold.
pub open spec fn names_of(tokens: Tokens, scope: Scope) -> Names {
    Names { tokens: tokens@, scope: scope@ }
}

/// What planning a piece of a query comes to: the names afterwards, and the
/// result or the error.
pub struct Planned<T> {
    pub names: Names,
    pub result: Result<T, ErrorKind>,
}

/// Planning succeeded with `value`.
pub open spec fn planned<T>(names: Names, value: T) -> Planned<T> {
    Planned { names, result: Ok(value) }
}

/// Planning failed with an error of kind `kind`.
pub open spec fn failed<T>(names: Names, kind: ErrorKind) -> Planned<T> {
    Planned { names, result: Err(kind) }
}

/// The number that a sequence of decimal digits denotes.
pub open spec fn digits_value(s: Seq<char>) -> nat
    decreases s.len(),
{
    if s.len() == 0 {
        0
    } else {
        digits_value(s.drop_last()) * 10 + (s.last() as nat - 48) as nat
    }
}

/// Every character is a decimal digit, and there is at least one.
pub open spec fn is_numeral(s: Seq<char>) -> bool {
    s.len() > 0 && forall|i: int| 0 <= i < s.len() ==> '0' <= #[trigger] s[i] <= '9'
}

/// A longer numeral denotes no smaller number than its beginning.
proof fn lemma_digits_value_grows(s: Seq<char>, n: int)
    requires
        0 <= n <= s.len(),
    ensures
        digits_value(s.subrange(0, n)) <= digits_value(s),
    decreases s.len(),
{
    if n == s.len() {
        assert(s.subrange(0, n) =~= s);
    } else {
        lemma_digits_value_grows(s.drop_last(), n);
        assert(s.drop_last().subrange(0, n) =~= s.subrange(0, n));
    }
}

/// The text of a string literal without its quotes.
pub open spec fn unquote(text: Seq<char>) -> Seq<char> {
    if text.len() >= 2 {
        text.subrange(1, text.len() - 1)
    } else {
        text
    }
}

/// The operator that a rule of the parse tree stands for.
pub open spec fn op_of(rule: Rule) -> Option<Op> {
    match rule {
        Rule::Eq => Some(Op::Eq),
        Rule::NotEq => Some(Op::NotEq),
        Rule::Lt => Some(Op::Lt),
        Rule::Gt => Some(Op::Gt),
        Rule::LtEq => Some(Op::LtEq),
        Rule::GtEq => Some(Op::GtEq),
        Rule::Add => Some(Op::Add),
        Rule::Sub => Some(Op::Sub),
        Rule::Mul => Some(Op::Mul),
        Rule::Div => Some(Op::Div),
        Rule::Mod => Some(Op::Mod),
        _ => None,
    }
}

/// The expression that a parse tree stands for, and the names after planning
/// it. Names are resolved from left to right: an identifier is interned and
/// gets the slot of its token; the key of a property and the name of a
/// function are interned. A function must be one that the backend describes.
pub open spec fn plan_expr_spec(node: ParseTree, names: Names, bd: &BackendDesc) -> Planned<
    ExprView,
>
    decreases node, 0nat,
{
    match node.rule {
        Rule::Int => if !is_numeral(node.text) {
            failed(names, ErrorKind::UnexpectedRule)
        } else if digits_value(node.text) > i64::MAX {
            failed(names, ErrorKind::IntegerOutOfRange)
        } else {
            planned(names, ExprView::Int(digits_value(node.text) as i64))
        },
        Rule::Float => planned(names, ExprView::Float(node.text)),
        Rule::Str => planned(names, ExprView::String(unquote(node.text))),
        Rule::True => planned(names, ExprView::Bool(true)),
        Rule::False => planned(names, ExprView::Bool(false)),
        Rule::Null => planned(names, ExprView::Null),
        Rule::Id => {
            let tok = names.token(node.text);
            planned(
                names.tokenize(node.text).with_slot(tok),
                ExprView::Slot(names.slot_for(tok)),
            )
        },
        Rule::List => {
            let items = plan_exprs_spec(node.children, 0, names, bd, Seq::empty());
            match items.result {
                Ok(items_ok) => planned(items.names, ExprView::List(items_ok)),
                Err(e) => failed(items.names, e),
            }
        },
        Rule::And => {
            let items = plan_exprs_spec(node.children, 0, names, bd, Seq::empty());
            match items.result {
                Ok(items_ok) => planned(items.names, ExprView::And(items_ok)),
                Err(e) => failed(items.names, e),
            }
        },
        Rule::Or => {
            let items = plan_exprs_spec(node.children, 0, names, bd, Seq::empty());
            match items.result {
                Ok(items_ok) => planned(items.names, ExprView::Or(items_ok)),
                Err(e) => failed(items.names, e),
            }
        },
        Rule::MapLit => {
            let entries = plan_entries_spec(node.children, 0, names, bd, Seq::empty());
            match entries.result {
                Ok(entries_ok) => planned(entries.names, ExprView::MapLit(entries_ok)),
                Err(e) => failed(entries.names, e),
            }
        },
        Rule::Not | Rule::Negate => if node.children.len() != 1 {
            failed(names, ErrorKind::UnexpectedRule)
        } else {
            let inner = plan_expr_spec(node.children[0], names, bd);
            match inner.result {
                Ok(e) => planned(
                    inner.names,
                    if node.rule == Rule::Not {
                        ExprView::Not(Box::new(e))
                    } else {
                        ExprView::Negate(Box::new(e))
                    },
                ),
                Err(e) => failed(inner.names, e),
            }
        },
        Rule::PropLookup => if node.children.len() != 2 || node.children[1].rule != Rule::Id {
            failed(names, ErrorKind::UnexpectedRule)
        } else {
            let base = plan_expr_spec(node.children[0], names, bd);
            match base.result {
                Ok(e) => planned(
                    base.names.tokenize(node.children[1].text),
                    ExprView::Prop(Box::new(e), base.names.token(node.children[1].text)),
                ),
                Err(e) => failed(base.names, e),
            }
        },
        Rule::FuncCall => if node.children.len() < 1 || node.children[0].rule != Rule::Id {
            failed(names, ErrorKind::UnexpectedRule)
        } else {
            let name = names.token(node.children[0].text);
            let names1 = names.tokenize(node.children[0].text);
            match bd.func_type_of(name) {
                None => failed(names1, ErrorKind::UnknownFunction),
                Some(func_type) => {
                    let args = plan_exprs_spec(node.children, 1, names1, bd, Seq::empty());
                    match args.result {
                        Ok(args_ok) => planned(
                            args.names,
                            ExprView::FuncCall {
                                name,
                                args: args_ok,
                                aggregating: func_type == FuncType::Aggregating,
                            },
                        ),
                        Err(e) => failed(args.names, e),
                    }
                },
            }
        },
        _ => match op_of(node.rule) {
            Some(op) => if node.children.len() != 2 {
                failed(names, ErrorKind::UnexpectedRule)
            } else {
                let left = plan_expr_spec(node.children[0], names, bd);
                match left.result {
                    Ok(l) => {
                        let right = plan_expr_spec(node.children[1], left.names, bd);
                        match right.result {
                            Ok(r) => planned(
                                right.names,
                                ExprView::BinaryOp { left: Box::new(l), right: Box::new(r), op },
                            ),
                            Err(e) => failed(right.names, e),
                        }
                    },
                    Err(e) => failed(left.names, e),
                }
            },
            None => failed(names, ErrorKind::UnexpectedRule),
        },
    }
}

/// The expressions of `nodes[from..]`, planned from left to right and added to
/// `acc`.
pub open spec fn plan_exprs_spec(
    nodes: Seq<ParseTree>,
    from: int,
    names: Names,
    bd: &BackendDesc,
    acc: Seq<ExprView>,
) -> Planned<Seq<ExprView>>
    decreases nodes, nodes.len() - from,
{
    if 0 <= from < nodes.len() {
        let first = plan_expr_spec(nodes[from], names, bd);
        match first.result {
            Ok(e) => plan_exprs_spec(nodes, from + 1, first.names, bd, acc.push(e)),
            Err(e) => failed(first.names, e),
        }
    } else {
        planned(names, acc)
    }
}

/// The entries of a map literal, of which `nodes[from..]` are the pairs,
/// planned from left to right and added to `acc`. The key of a pair is
/// interned before its value is planned.
pub open spec fn plan_entries_spec(
    nodes: Seq<ParseTree>,
    from: int,
    names: Names,
    bd: &BackendDesc,
    acc: Seq<MapEntryView>,
) -> Planned<Seq<MapEntryView>>
    decreases nodes, nodes.len() - from,
{
    if 0 <= from < nodes.len() {
        let pair = nodes[from];
        if pair.rule != Rule::MapPair || pair.children.len() != 2 || pair.children[0].rule
            != Rule::Id {
            failed(names, ErrorKind::UnexpectedRule)
        } else {
            let key = names.token(pair.children[0].text);
            let val = plan_expr_spec(
                pair.children[1],
                names.tokenize(pair.children[0].text),
                bd,
            );
            match val.result {
                Ok(e) => plan_entries_spec(
                    nodes,
                    from + 1,
                    val.names,
                    bd,
                    acc.push(MapEntryView { key, val: e }),
                ),
                Err(e) => failed(val.names, e),
            }
        }
    } else {
        planned(names, acc)
    }
}

/// Whether what an expression planner returned, and the names it left, are
/// what `spec` says.
pub open spec fn expr_planned(
    r: Result<Expr, Error>,
    tokens: Tokens,
    scope: Scope,
    spec: Planned<ExprView>,
) -> bool {
    match r {
        Ok(e) => spec.result == Ok::<ExprView, ErrorKind>(e@) && names_of(tokens, scope)
            == spec.names,
        Err(err) => spec.result == Err::<ExprView, ErrorKind>(err.kind),
    }
}

/// The children of a node, seen through its model.
pub proof fn lemma_children(node: ParseNode)
    ensures
        node@.children == trees_view(node.children@),
        node@.children.len() == node.children@.len(),
        forall|i: int| 0 <= i < node.children@.len() ==> node@.children[i] == node.children@[i]@,
{
}

/// The value of an integer literal.
pub fn int_value(text: &str) -> (r: Result<i64, Error>)
    ensures
        match r {
            Ok(v) => is_numeral(text@) && v == digits_value(text@),
            Err(e) => if is_numeral(text@) {
                e.kind == ErrorKind::IntegerOutOfRange && digits_value(text@) > i64::MAX
            } else {
                e.kind == ErrorKind::UnexpectedRule
            },
        },
{
    let chars = chars_of(text);
    let n: usize = chars.len();
    if n == 0 {
        return Err(Error::new(ErrorKind::UnexpectedRule));
    }
    let mut i: usize = 0;
    while i < n
        invariant
            n == chars.len(),
            chars@ == text@,
            i <= n,
            forall|j: int| 0 <= j < i ==> '0' <= #[trigger] chars@[j] <= '9',
        decreases n - i,
    {
        let c = chars[i];
        if !('0' <= c && c <= '9') {
            assert(!('0' <= text@[i as int] <= '9'));
            return Err(Error::new(ErrorKind::UnexpectedRule));
        }
        i += 1;
    }
    let mut value: i64 = 0;
    let mut k: usize = 0;
    while k < n
        invariant
            n == chars.len(),
            chars@ == text@,
            k <= n,
            is_numeral(chars@),
            0 <= value,
            value == digits_value(chars@.subrange(0, k as int)),
        decreases n - k,
    {
        let d: i64 = (chars[k] as u8 - 48) as i64;
        proof {
            let next = chars@.subrange(0, k + 1);
            assert(next.drop_last() =~= chars@.subrange(0, k as int));
            assert(next.last() == chars@[k as int]);
            assert(digits_value(next) == value * 10 + d);
            lemma_digits_value_grows(chars@, k + 1);
        }
        if value > (i64::MAX - d) / 10 {
            return Err(Error::new(ErrorKind::IntegerOutOfRange));
        }
        value = value * 10 + d;
        k += 1;
    }
    assert(chars@.subrange(0, n as int) =~= chars@);
    Ok(value)
}

/// The text of a string literal without its quotes.
pub fn unquoted(text: &str) -> (s: String)
    ensures
        s@ == unquote(text@),
{
    let chars = chars_of(text);
    let n: usize = chars.len();
    if n >= 2 {
        string_of(&chars, 1, n - 1)
    } else {
        String::from_str(text)
    }
}

/// The operator that a rule of the parse tree stands for.
pub fn operator(rule: Rule) -> (op: Option<Op>)
    ensures
        op == op_of(rule),
{
    match rule {
        Rule::Eq => Some(Op::Eq),
        Rule::NotEq => Some(Op::NotEq),
        Rule::Lt => Some(Op::Lt),
        Rule::Gt => Some(Op::Gt),
        Rule::LtEq => Some(Op::LtEq),
        Rule::GtEq => Some(Op::GtEq),
        Rule::Add => Some(Op::Add),
        Rule::Sub => Some(Op::Sub),
        Rule::Mul => Some(Op::Mul),
        Rule::Div => Some(Op::Div),
        Rule::Mod => Some(Op::Mod),
        _ => None,
    }
}

/// Plans an expression in `scope`.
pub fn plan_expr(scope: &mut Scope, tokens: &mut Tokens, bd: &BackendDesc, node: &ParseNode) -> (r:
    Result<Expr, Error>)
    ensures
        final(scope).wf(),
        final(tokens).wf(),
        expr_planned(
            r,
            *final(tokens),
            *final(scope),
            plan_expr_spec(node@, names_of(*old(tokens), *old(scope)), bd),
        ),
    decreases node, 1nat,
{
    proof {
        use_type_invariant(&*scope);
        use_type_invariant(&*tokens);
    }
    proof {
        lemma_children(*node);
    }
    match node.rule {
        Rule::Int => {
            match int_value(node.text.as_str()) {
                Ok(v) => Ok(Expr::Int(v)),
                Err(e) => Err(e),
            }
        },
        Rule::Float => Ok(Expr::Float(node.text.clone())),
        Rule::Str => Ok(Expr::String(unquoted(node.text.as_str()))),
        Rule::True => Ok(Expr::Bool(true)),
        Rule::False => Ok(Expr::Bool(false)),
        Rule::Null => Ok(Expr::Null),
        Rule::Id => {
            let tok = tokens.tokenize(node.text.as_str());
            let slot = scope.get_or_alloc_slot(tok);
            Ok(Expr::Slot(slot))
        },
        Rule::List => {
            match plan_exprs(scope, tokens, bd, &node.children, 0) {
                Ok(items) => Ok(Expr::List(items)),
                Err(e) => Err(e),
            }
        },
        Rule::And => {
            match plan_exprs(scope, tokens, bd, &node.children, 0) {
                Ok(items) => Ok(Expr::And(items)),
                Err(e) => Err(e),
            }
        },
        Rule::Or => {
            match plan_exprs(scope, tokens, bd, &node.children, 0) {
                Ok(items) => Ok(Expr::Or(items)),
                Err(e) => Err(e),
            }
        },
        Rule::MapLit => {
            match parse_map_expression(scope, tokens, bd, node) {
                Ok(entries) => Ok(Expr::MapLit(entries)),
                Err(e) => Err(e),
            }
        },
        Rule::Not | Rule::Negate => {
            if node.children.len() != 1 {
                return Err(Error::new(ErrorKind::UnexpectedRule));
            }
            match plan_expr(scope, tokens, bd, &node.children[0]) {
                Ok(e) => {
                    if node.rule == Rule::Not {
                        Ok(Expr::Not(Box::new(e)))
                    } else {
                        Ok(Expr::Negate(Box::new(e)))
                    }
                },
                Err(e) => Err(e),
            }
        },
        Rule::PropLookup => {
            if node.children.len() != 2 || node.children[1].rule != Rule::Id {
                return Err(Error::new(ErrorKind::UnexpectedRule));
            }
            match plan_expr(scope, tokens, bd, &node.children[0]) {
                Ok(e) => {
                    let key = tokens.tokenize(node.children[1].text.as_str());
                    Ok(Expr::Prop(Box::new(e), key))
                },
                Err(e) => Err(e),
            }
        },
        Rule::FuncCall => {
            if node.children.len() < 1 || node.children[0].rule != Rule::Id {
                return Err(Error::new(ErrorKind::UnexpectedRule));
            }
            let name = tokens.tokenize(node.children[0].text.as_str());
            match bd.find(name) {
                None => Err(Error::new(ErrorKind::UnknownFunction)),
                Some(func_type) => {
                    match plan_exprs(scope, tokens, bd, &node.children, 1) {
                        Ok(args) => {
                            let aggregating = match func_type {
                                FuncType::Aggregating => true,
                                FuncType::Scalar => false,
                            };
                            Ok(Expr::FuncCall { name, args, aggregating })
                        },
                        Err(e) => Err(e),
                    }
                },
            }
        },
        _ => {
            match operator(node.rule) {
                Some(op) => {
                    if node.children.len() != 2 {
                        return Err(Error::new(ErrorKind::UnexpectedRule));
                    }
                    match plan_expr(scope, tokens, bd, &node.children[0]) {
                        Ok(l) => {
                            match plan_expr(scope, tokens, bd, &node.children[1]) {
                                Ok(r) => Ok(
                                    Expr::BinaryOp { left: Box::new(l), right: Box::new(r), op },
                                ),
                                Err(e) => Err(e),
                            }
                        },
                        Err(e) => Err(e),
                    }
                },
                None => Err(Error::new(ErrorKind::UnexpectedRule)),
            }
        },
    }
}

/// Plans the expressions of `nodes[from..]`, from left to right.
pub fn plan_exprs(
    scope: &mut Scope,
    tokens: &mut Tokens,
    bd: &BackendDesc,
    nodes: &Vec<ParseNode>,
    from: usize,
) -> (r: Result<Vec<Expr>, Error>)
    ensures
        final(scope).wf(),
        final(tokens).wf(),
        ({
            let spec = plan_exprs_spec(
                trees_view(nodes@),
                from as int,
                names_of(*old(tokens), *old(scope)),
                bd,
                Seq::empty(),
            );
            match r {
                Ok(items) => spec.result == Ok::<Seq<ExprView>, ErrorKind>(exprs_view(items@))
                    && names_of(*final(tokens), *final(scope)) == spec.names,
                Err(err) => spec.result == Err::<Seq<ExprView>, ErrorKind>(err.kind),
            }
        }),
    decreases nodes, 1nat,
{
    proof {
        use_type_invariant(&*scope);
        use_type_invariant(&*tokens);
    }
    let mut items: Vec<Expr> = Vec::new();
    let mut i: usize = from;
    assert(exprs_view(items@) =~= Seq::empty());
    while i < nodes.len()
        invariant
            from <= i,
            scope.wf(),
            tokens.wf(),
            plan_exprs_spec(
                trees_view(nodes@),
                i as int,
                names_of(*tokens, *scope),
                bd,
                exprs_view(items@),
            ) == plan_exprs_spec(
                trees_view(nodes@),
                from as int,
                names_of(*old(tokens), *old(scope)),
                bd,
                Seq::empty(),
            ),
        decreases nodes.len() - i,
    {
        match plan_expr(scope, tokens, bd, &nodes[i]) {
            Ok(e) => {
                proof {
                    lemma_exprs_view_push(items@, e);
                }
                items.push(e);
            },
            Err(e) => {
                return Err(e);
            },
        }
        i += 1;
    }
    Ok(items)
}

/// Plans the entries of a map literal.
pub fn parse_map_expression(
    scope: &mut Scope,
    tokens: &mut Tokens,
    bd: &BackendDesc,
    node: &ParseNode,
) -> (r: Result<Vec<MapEntryExpr>, Error>)
    ensures
        final(scope).wf(),
        final(tokens).wf(),
        ({
            let spec = plan_entries_spec(
                node@.children,
                0,
                names_of(*old(tokens), *old(scope)),
                bd,
                Seq::empty(),
            );
            match r {
                Ok(entries) => spec.result == Ok::<Seq<MapEntryView>, ErrorKind>(
                    entries_view(entries@),
                ) && names_of(*final(tokens), *final(scope)) == spec.names,
                Err(err) => spec.result == Err::<Seq<MapEntryView>, ErrorKind>(err.kind),
            }
        }),
    decreases node, 0nat,
{
    proof {
        use_type_invariant(&*scope);
        use_type_invariant(&*tokens);
    }
    proof {
        lemma_children(*node);
    }
    let mut entries: Vec<MapEntryExpr> = Vec::new();
    let mut i: usize = 0;
    assert(entries_view(entries@) =~= Seq::empty());
    while i < node.children.len()
        invariant
            scope.wf(),
            tokens.wf(),
            node@.children == trees_view(node.children@),
            plan_entries_spec(
                node@.children,
                i as int,
                names_of(*tokens, *scope),
                bd,
                entries_view(entries@),
            ) == plan_entries_spec(
                node@.children,
                0,
                names_of(*old(tokens), *old(scope)),
                bd,
                Seq::empty(),
            ),
        decreases node.children.len() - i,
    {
        let pair = &node.children[i];
        proof {
            lemma_children(*pair);
        }
        if pair.rule != Rule::MapPair || pair.children.len() != 2 || pair.children[0].rule
            != Rule::Id {
            return Err(Error::new(ErrorKind::UnexpectedRule));
        }
        let key = tokens.tokenize(pair.children[0].text.as_str());
        match plan_expr(scope, tokens, bd, &pair.children[1]) {
            Ok(val) => {
                let entry = MapEntryExpr { key, val };
                proof {
                    lemma_entries_view_push(entries@, entry);
                }
                entries.push(entry);
            },
            Err(e) => {
                return Err(e);
            },
        }
        i += 1;
    }
    Ok(entries)
}

/// What planning a piece of a query in a context comes to: the context
/// afterwards, and the result or the error.
pub struct Outcome<T> {
    pub ctx: ContextView,
    pub result: Result<T, ErrorKind>,
}

/// Planning succeeded with `value`.
pub open spec fn done<T>(ctx: ContextView, value: T) -> Outcome<T> {
    Outcome { ctx, result: Ok(value) }
}

/// Planning failed with an error of kind `kind`.
pub open spec fn fail<T>(ctx: ContextView, kind: ErrorKind) -> Outcome<T> {
    Outcome { ctx, result: Err(kind) }
}

/// The names of the active scope of a context.
pub open spec fn names_in(ctx: ContextView) -> Names {
    Names { tokens: ctx.tokens, scope: ctx.scope->0 }
}

/// The context with other names.
pub open spec fn with_names(ctx: ContextView, names: Names) -> ContextView {
    ContextView { tokens: names.tokens, scope: Some(names.scope), ..ctx }
}

/// What planning in the active scope of a context comes to.
pub open spec fn in_context<T>(ctx: ContextView, p: Planned<T>) -> Outcome<T> {
    Outcome { ctx: with_names(ctx, p.names), result: p.result }
}

/// The expression that a parse tree stands for in the active scope.
pub open spec fn plan_expr_ctx(node: ParseTree, ctx: ContextView, bd: &BackendDesc) -> Outcome<
    ExprView,
> {
    in_context(ctx, plan_expr_spec(node, names_in(ctx), bd))
}

/// The entries of the map literal `node` in the active scope.
pub open spec fn plan_entries_ctx(node: ParseTree, ctx: ContextView, bd: &BackendDesc) -> Outcome<
    Seq<MapEntryView>,
> {
    in_context(ctx, plan_entries_spec(node.children, 0, names_in(ctx), bd, Seq::empty()))
}

/// What every planner that works in a context keeps: the active scope and
/// the backend.
pub open spec fn context_kept(before: PlanningContext, after: PlanningContext) -> bool {
    &&& after@.active()
    &&& after.backend_desc == before.backend_desc
}

/// Plans an expression in the active scope of the context.
pub fn plan_expr_in(pc: &mut PlanningContext, node: &ParseNode) -> (r: Result<Expr, Error>)
    requires
        old(pc)@.active(),
    ensures
        context_kept(*old(pc), *final(pc)),
        ({
            let spec = plan_expr_ctx(node@, old(pc)@, old(pc).backend_desc);
            match r {
                Ok(e) => spec.result == Ok::<ExprView, ErrorKind>(e@) && final(pc)@ == spec.ctx,
                Err(err) => spec.result == Err::<ExprView, ErrorKind>(err.kind),
            }
        }),
{
    let mut scope = pc.detach_scope();
    let r = plan_expr(&mut scope, &mut pc.tokens, pc.backend_desc, node);
    pc.attach_scope(scope);
    r
}

/// Plans the entries of a map literal in the active scope of the context.
pub fn parse_map_in(pc: &mut PlanningContext, node: &ParseNode) -> (r: Result<
    Vec<MapEntryExpr>,
    Error,
>)
    requires
        old(pc)@.active(),
    ensures
        context_kept(*old(pc), *final(pc)),
        ({
            let spec = plan_entries_ctx(node@, old(pc)@, old(pc).backend_desc);
            match r {
                Ok(entries) => spec.result == Ok::<Seq<MapEntryView>, ErrorKind>(
                    entries_view(entries@),
                ) && final(pc)@ == spec.ctx,
                Err(err) => spec.result == Err::<Seq<MapEntryView>, ErrorKind>(err.kind),
            }
        }),
{
    let mut scope = pc.detach_scope();
    let r = parse_map_expression(&mut scope, &mut pc.tokens, pc.backend_desc, node);
    pc.attach_scope(scope);
    r
}

} // verus!
