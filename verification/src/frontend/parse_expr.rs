//! The grammar of expressions, and the parser that follows it.

use vstd::prelude::*;
use crate::frontend::lexer::{lex, lex_spec, lexemes_wf, LexKind, Lexeme};
use crate::frontend::syntax::{lemma_trees_view_push, trees_view, ParseNode, ParseTree, Rule};
use crate::text::{chars_of, string_of};

verus! {

/// The text of a query and its lexemes.
#[derive(Debug)]
pub struct Source {
    pub chars: Vec<char>,
    pub lexemes: Vec<Lexeme>,
}

/// The model of a source: the characters and the lexemes.
pub struct Input {
    pub chars: Seq<char>,
    pub lexemes: Seq<Lexeme>,
}

impl Input {
    /// The number of lexemes.
    pub open spec fn len(self) -> int {
        self.lexemes.len() as int
    }
}

impl View for Source {
    type V = Input;

    open spec fn view(&self) -> Input {
        Input { chars: self.chars@, lexemes: self.lexemes@ }
    }
}

impl Source {
    /// The lexemes lie in the text, one after the other.
    pub open spec fn wf(&self) -> bool {
        lexemes_wf(self.chars@, self.lexemes@) && self.lexemes@.len() <= usize::MAX
    }

    /// The number of lexemes.
    pub open spec fn len(&self) -> int {
        self.lexemes@.len() as int
    }

    /// The source of a text: its characters and its lexemes; none where the
    /// text cannot be cut into lexemes.
    pub fn new(text: &str) -> (r: Option<Source>)
        ensures
            text@.len() <= usize::MAX,
            match r {
                Some(inp) => inp.wf() && inp.chars@ == text@ && lex_spec(text@) == Some(
                    inp.lexemes@,
                ),
                None => lex_spec(text@) is None,
            },
    {
        let chars = chars_of(text);
        assert(text@.len() == chars.len());
        match lex(&chars) {
            Some(lexemes) => {
                assert(lexemes@.len() == lexemes.len());
                Some(Source { chars, lexemes })
            },
            None => None,
        }
    }
}

/// What a parser gives: the tree, and the place of the lexeme that follows it.
pub type Parsed = Option<(ParseTree, int)>;

/// What a parser of a list gives: the trees, and the place of the lexeme that
/// follows them.
pub type ParsedList = Option<(Seq<ParseTree>, int)>;

/// The kind of the lexeme at `pos`, if there is one.
pub open spec fn kind_at(inp: Input, pos: int) -> Option<LexKind> {
    if 0 <= pos < inp.len() {
        Some(inp.lexemes[pos].kind)
    } else {
        None
    }
}

/// The text of the lexemes `from..to`, with what lies between them.
pub open spec fn span_text(inp: Input, from: int, to: int) -> Seq<char> {
    inp.chars.subrange(inp.lexemes[from].start as int, inp.lexemes[to - 1].end as int)
}

/// The lower-case form of an upper-case letter; any other character as it is.
pub open spec fn lower(c: char) -> char {
    if 'A' <= c <= 'Z' {
        ((c as u8) + 32) as u8 as char
    } else {
        c
    }
}

/// The text with its upper-case letters in lower case.
pub open spec fn lowered(s: Seq<char>) -> Seq<char> {
    Seq::new(s.len(), |i: int| lower(s[i]))
}

/// Whether the lexeme at `pos` is the word `kw`, in whatever case. `kw` is
/// written in lower case.
#[verifier::opaque]
pub open spec fn is_kw(inp: Input, pos: int, kw: Seq<char>) -> bool {
    kind_at(inp, pos) == Some(LexKind::Word) && lowered(span_text(inp, pos, pos + 1)) == kw
}

/// Whether the word at `pos` is one that the language keeps for itself.
#[verifier::opaque]
pub open spec fn is_reserved(inp: Input, pos: int) -> bool {
    ||| is_kw(inp, pos, "match"@)
    ||| is_kw(inp, pos, "optional"@)
    ||| is_kw(inp, pos, "unwind"@)
    ||| is_kw(inp, pos, "create"@)
    ||| is_kw(inp, pos, "merge"@)
    ||| is_kw(inp, pos, "with"@)
    ||| is_kw(inp, pos, "return"@)
    ||| is_kw(inp, pos, "call"@)
    ||| is_kw(inp, pos, "set"@)
    ||| is_kw(inp, pos, "where"@)
    ||| is_kw(inp, pos, "as"@)
    ||| is_kw(inp, pos, "and"@)
    ||| is_kw(inp, pos, "or"@)
    ||| is_kw(inp, pos, "not"@)
    ||| is_kw(inp, pos, "order"@)
    ||| is_kw(inp, pos, "by"@)
    ||| is_kw(inp, pos, "skip"@)
    ||| is_kw(inp, pos, "limit"@)
}

/// The tree with the rule `rule` over the lexemes `from..to`.
pub open spec fn tree(inp: Input, rule: Rule, from: int, to: int, children: Seq<ParseTree>)
    -> ParseTree {
    ParseTree { rule, text: span_text(inp, from, to), children }
}

/// The tree of the one lexeme at `pos`.
pub open spec fn leaf(inp: Input, rule: Rule, pos: int) -> ParseTree {
    tree(inp, rule, pos, pos + 1, Seq::empty())
}

/// Whether a parser that started at `pos` and stopped at `next` has read
/// something, and no more than there is.
pub open spec fn ahead(inp: Input, pos: int, next: int) -> bool {
    pos < next <= inp.len()
}

/// The rule of the operator at `pos`, if it is one of the level `level`:
/// comparisons at level 0, sums at level 1, products at level 2.
pub open spec fn op_rule(inp: Input, pos: int, level: nat) -> Option<Rule> {
    match kind_at(inp, pos) {
        Some(LexKind::Eq) => if level == 0 {
            Some(Rule::Eq)
        } else {
            None
        },
        Some(LexKind::NotEq) => if level == 0 {
            Some(Rule::NotEq)
        } else {
            None
        },
        Some(LexKind::Lt) => if level == 0 {
            Some(Rule::Lt)
        } else {
            None
        },
        Some(LexKind::Gt) => if level == 0 {
            Some(Rule::Gt)
        } else {
            None
        },
        Some(LexKind::LtEq) => if level == 0 {
            Some(Rule::LtEq)
        } else {
            None
        },
        Some(LexKind::GtEq) => if level == 0 {
            Some(Rule::GtEq)
        } else {
            None
        },
        Some(LexKind::Plus) => if level == 1 {
            Some(Rule::Add)
        } else {
            None
        },
        Some(LexKind::Dash) => if level == 1 {
            Some(Rule::Sub)
        } else {
            None
        },
        Some(LexKind::Star) => if level == 2 {
            Some(Rule::Mul)
        } else {
            None
        },
        Some(LexKind::Slash) => if level == 2 {
            Some(Rule::Div)
        } else {
            None
        },
        Some(LexKind::Percent) => if level == 2 {
            Some(Rule::Mod)
        } else {
            None
        },
        _ => None,
    }
}

/// An expression: `junction` of the kind OR.
pub open spec fn expr_spec(inp: Input, pos: int) -> Parsed
    decreases inp.len() - pos, 20nat,
{
    junction_spec(inp, pos, true)
}

/// `operand (OR operand)*` if `disj`, where an operand is a junction of the
/// kind AND; else `operand (AND operand)*`, where an operand is a negation.
/// One operand alone stands for itself.
pub open spec fn junction_spec(inp: Input, pos: int, disj: bool) -> Parsed
    decreases inp.len() - pos,
        if disj {
            19nat
        } else {
            17nat
        },
{
    let first = if disj {
        junction_spec(inp, pos, false)
    } else {
        negation_spec(inp, pos)
    };
    match first {
        Some((operand, next)) => if ahead(inp, pos, next) {
            junction_tail(inp, pos, next, disj, seq![operand])
        } else {
            None
        },
        None => None,
    }
}

/// The rest of a junction that started at `start`, from `pos` on.
pub open spec fn junction_tail(
    inp: Input,
    start: int,
    pos: int,
    disj: bool,
    acc: Seq<ParseTree>,
) -> Parsed
    decreases inp.len() - pos, 0nat,
{
    if pos < inp.len() && is_kw(
        inp,
        pos,
        if disj {
            "or"@
        } else {
            "and"@
        },
    ) {
        let more = if disj {
            junction_spec(inp, pos + 1, false)
        } else {
            negation_spec(inp, pos + 1)
        };
        match more {
            Some((operand, next)) => if ahead(inp, pos + 1, next) {
                junction_tail(inp, start, next, disj, acc.push(operand))
            } else {
                None
            },
            None => None,
        }
    } else if acc.len() == 1 {
        Some((acc[0], pos))
    } else {
        Some(
            (
                tree(
                    inp,
                    if disj {
                        Rule::Or
                    } else {
                        Rule::And
                    },
                    start,
                    pos,
                    acc,
                ),
                pos,
            ),
        )
    }
}

/// `NOT negation`, or a comparison.
pub open spec fn negation_spec(inp: Input, pos: int) -> Parsed
    decreases inp.len() - pos, 16nat,
{
    if pos < inp.len() && is_kw(inp, pos, "not"@) {
        match negation_spec(inp, pos + 1) {
            Some((operand, next)) => if ahead(inp, pos + 1, next) {
                Some((tree(inp, Rule::Not, pos, next, seq![operand]), next))
            } else {
                None
            },
            None => None,
        }
    } else {
        binary_spec(inp, pos, 0)
    }
}

/// `operand (op operand)*` with the operators of the level `level`, grouped
/// from the left; an operand is of the next level, and after the last level a
/// unary expression.
pub open spec fn binary_spec(inp: Input, pos: int, level: nat) -> Parsed
    decreases inp.len() - pos,
        if level <= 3 {
            (15 - level) as nat
        } else {
            12nat
        },
{
    if level >= 3 {
        unary_spec(inp, pos)
    } else {
        match binary_spec(inp, pos, level + 1) {
            Some((left, next)) => if ahead(inp, pos, next) {
                binary_tail(inp, pos, next, level, left)
            } else {
                None
            },
            None => None,
        }
    }
}

/// The rest of a chain of operators that started at `start`, from `pos` on.
pub open spec fn binary_tail(inp: Input, start: int, pos: int, level: nat, left: ParseTree)
    -> Parsed
    decreases inp.len() - pos, 0nat,
{
    if level >= 3 {
        None
    } else {
        match op_rule(inp, pos, level) {
            Some(rule) => match binary_spec(inp, pos + 1, level + 1) {
                Some((right, next)) => if ahead(inp, pos + 1, next) {
                    binary_tail(
                        inp,
                        start,
                        next,
                        level,
                        tree(inp, rule, start, next, seq![left, right]),
                    )
                } else {
                    None
                },
                None => None,
            },
            None => Some((left, pos)),
        }
    }
}

/// `- unary`, or an atom with its property lookups.
pub open spec fn unary_spec(inp: Input, pos: int) -> Parsed
    decreases inp.len() - pos, 11nat,
{
    if kind_at(inp, pos) == Some(LexKind::Dash) {
        match unary_spec(inp, pos + 1) {
            Some((operand, next)) => if ahead(inp, pos + 1, next) {
                Some((tree(inp, Rule::Negate, pos, next, seq![operand]), next))
            } else {
                None
            },
            None => None,
        }
    } else {
        match atom_spec(inp, pos) {
            Some((base, next)) => if ahead(inp, pos, next) {
                Some(lookups_spec(inp, pos, next, base))
            } else {
                None
            },
            None => None,
        }
    }
}

/// The expression `base`, which started at `start`, with the lookups
/// `. word` that follow it from `pos` on.
pub open spec fn lookups_spec(inp: Input, start: int, pos: int, base: ParseTree) -> (
    ParseTree,
    int,
)
    decreases inp.len() - pos,
{
    if kind_at(inp, pos) == Some(LexKind::Dot) && kind_at(inp, pos + 1) == Some(LexKind::Word) {
        lookups_spec(
            inp,
            start,
            pos + 2,
            tree(inp, Rule::PropLookup, start, pos + 2, seq![base, leaf(inp, Rule::Id, pos + 1)]),
        )
    } else {
        (base, pos)
    }
}

/// A literal, a list, a map, a call of a function, an identifier, or an
/// expression in parentheses.
pub open spec fn atom_spec(inp: Input, pos: int) -> Parsed
    decreases inp.len() - pos, 9nat,
{
    match kind_at(inp, pos) {
        Some(LexKind::Int) => Some((leaf(inp, Rule::Int, pos), pos + 1)),
        Some(LexKind::Float) => Some((leaf(inp, Rule::Float, pos), pos + 1)),
        Some(LexKind::Str) => Some((leaf(inp, Rule::Str, pos), pos + 1)),
        Some(LexKind::Word) => word_atom_spec(inp, pos),
        Some(LexKind::LParen) => match expr_spec(inp, pos + 1) {
            Some((inner, next)) => if kind_at(inp, next) == Some(LexKind::RParen) {
                Some((inner, next + 1))
            } else {
                None
            },
            None => None,
        },
        Some(LexKind::LBracket) => match expr_list_spec(inp, pos + 1, LexKind::RBracket) {
            Some((items, next)) => Some((tree(inp, Rule::List, pos, next, items), next)),
            None => None,
        },
        Some(LexKind::LBrace) => map_spec(inp, pos),
        _ => None,
    }
}

/// `[expr (, expr)*] close`: the expressions of a list, up to and with the
/// lexeme that closes it.
pub open spec fn expr_list_spec(inp: Input, pos: int, close: LexKind) -> ParsedList
    decreases inp.len() - pos, 22nat,
{
    if kind_at(inp, pos) == Some(close) {
        Some((Seq::empty(), pos + 1))
    } else {
        expr_list_tail(inp, pos, close, Seq::empty())
    }
}

/// The rest of a list of expressions, from `pos` on, where an expression
/// must stand.
pub open spec fn expr_list_tail(inp: Input, pos: int, close: LexKind, acc: Seq<ParseTree>)
    -> ParsedList
    decreases inp.len() - pos, 21nat,
{
    if pos >= inp.len() {
        None
    } else {
        match expr_spec(inp, pos) {
            Some((item, next)) => if !ahead(inp, pos, next) {
                None
            } else if kind_at(inp, next) == Some(LexKind::Comma) {
                expr_list_tail(inp, next + 1, close, acc.push(item))
            } else if kind_at(inp, next) == Some(close) {
                Some((acc.push(item), next + 1))
            } else {
                None
            },
            None => None,
        }
    }
}

/// `{ [word : expr (, word : expr)*] }`.
pub open spec fn map_spec(inp: Input, pos: int) -> Parsed
    decreases inp.len() - pos, 6nat,
{
    if kind_at(inp, pos) != Some(LexKind::LBrace) {
        None
    } else if kind_at(inp, pos + 1) == Some(LexKind::RBrace) {
        Some((tree(inp, Rule::MapLit, pos, pos + 2, Seq::empty()), pos + 2))
    } else {
        map_tail(inp, pos, pos + 1, Seq::empty())
    }
}

/// The rest of a map that started at `start`, from `pos` on, where a pair
/// must stand.
pub open spec fn map_tail(inp: Input, start: int, pos: int, acc: Seq<ParseTree>) -> Parsed
    decreases inp.len() - pos, 0nat,
{
    if pos >= inp.len() || kind_at(inp, pos) != Some(LexKind::Word) || kind_at(inp, pos + 1)
        != Some(LexKind::Colon) {
        None
    } else {
        match expr_spec(inp, pos + 2) {
            Some((value, next)) => if !ahead(inp, pos + 2, next) {
                None
            } else {
                let pair = tree(
                    inp,
                    Rule::MapPair,
                    pos,
                    next,
                    seq![leaf(inp, Rule::Id, pos), value],
                );
                if kind_at(inp, next) == Some(LexKind::Comma) {
                    map_tail(inp, start, next + 1, acc.push(pair))
                } else if kind_at(inp, next) == Some(LexKind::RBrace) {
                    Some((tree(inp, Rule::MapLit, start, next + 1, acc.push(pair)), next + 1))
                } else {
                    None
                }
            },
            None => None,
        }
    }
}

/// Whether what a parser returned is what the grammar says.
pub open spec fn parsed_as(r: Option<(ParseNode, usize)>, spec: Parsed) -> bool {
    match r {
        Some((node, next)) => spec == Some((node@, next as int)),
        None => spec is None,
    }
}

/// Whether what a parser of a list returned is what the grammar says.
pub open spec fn parsed_list_as(r: Option<(Vec<ParseNode>, usize)>, spec: ParsedList) -> bool {
    match r {
        Some((nodes, next)) => spec == Some((trees_view(nodes@), next as int)),
        None => spec is None,
    }
}

/// Whether a parser that started at `pos` has read something, if it
/// succeeded.
pub open spec fn proceeds<T>(inp: &Source, r: Option<(T, usize)>, pos: usize) -> bool {
    r matches Some((_, next)) ==> pos < next <= inp.len()
}

/// The kind of the lexeme at `pos`.
pub(crate) fn kind(inp: &Source, pos: usize) -> (k: Option<LexKind>)
    ensures
        k == kind_at(inp@, pos as int),
{
    if pos < inp.lexemes.len() {
        Some(inp.lexemes[pos].kind)
    } else {
        None
    }
}

/// Whether the lexeme at `pos` is of the kind `k`.
pub(crate) fn kind_is(inp: &Source, pos: usize, k: LexKind) -> (r: bool)
    ensures
        r == (kind_at(inp@, pos as int) == Some(k)),
        r ==> pos < inp.len(),
{
    pos < inp.lexemes.len() && inp.lexemes[pos].kind == k
}

/// The lower-case form of an upper-case letter.
fn lower_char(c: char) -> (r: char)
    ensures
        r == lower(c),
{
    if 'A' <= c && c <= 'Z' {
        ((c as u8) + 32) as char
    } else {
        c
    }
}

/// Whether the lexeme at `pos` is the word `kw`, in whatever case.
pub(crate) fn at_kw(inp: &Source, pos: usize, kw: &str) -> (r: bool)
    requires
        inp.wf(),
    ensures
        r == is_kw(inp@, pos as int, kw@),
        r ==> pos < inp.len(),
{
    reveal(is_kw);
    reveal(lexemes_wf);
    if !kind_is(inp, pos, LexKind::Word) {
        return false;
    }
    let start = inp.lexemes[pos].start;
    let end = inp.lexemes[pos].end;
    let n: usize = kw.unicode_len();
    let ghost text = span_text(inp@, pos as int, pos + 1);
    assert(inp.lexemes@[pos as int].start < inp.lexemes@[pos as int].end <= inp.chars@.len());
    assert(text.len() == end - start);
    if end - start != n {
        assert(lowered(text).len() != kw@.len());
        return false;
    }
    let mut i: usize = 0;
    while i < n
        invariant
            i <= n,
            n == kw@.len(),
            n == end - start,
            start < end <= inp.chars.len(),
            text == inp.chars@.subrange(start as int, end as int),
            text == span_text(inp@, pos as int, pos + 1),
            kind_at(inp@, pos as int) == Some(LexKind::Word),
            forall|j: int| 0 <= j < i ==> lowered(text)[j] == kw@[j],
        decreases n - i,
    {
        assert(text[i as int] == inp.chars@[start + i]);
        assert(lowered(text)[i as int] == lower(text[i as int]));
        if lower_char(inp.chars[start + i]) != kw.get_char(i) {
            proof {
                reveal(is_kw);
            }
            assert(lowered(text)[i as int] != kw@[i as int]);
            return false;
        }
        i += 1;
    }
    assert(lowered(text) =~= kw@);
    true
}

/// Whether the word at `pos` is one that the language keeps for itself.
fn reserved(inp: &Source, pos: usize) -> (r: bool)
    requires
        inp.wf(),
    ensures
        r == is_reserved(inp@, pos as int),
{
    reveal(is_reserved);
    at_kw(inp, pos, "match") || at_kw(inp, pos, "optional") || at_kw(inp, pos, "unwind") || at_kw(
        inp,
        pos,
        "create",
    ) || at_kw(inp, pos, "merge") || at_kw(inp, pos, "with") || at_kw(inp, pos, "return") || at_kw(
        inp,
        pos,
        "call",
    ) || at_kw(inp, pos, "set") || at_kw(inp, pos, "where") || at_kw(inp, pos, "as") || at_kw(
        inp,
        pos,
        "and",
    ) || at_kw(inp, pos, "or") || at_kw(inp, pos, "not") || at_kw(inp, pos, "order") || at_kw(
        inp,
        pos,
        "by",
    ) || at_kw(inp, pos, "skip") || at_kw(inp, pos, "limit")
}

/// The node with the rule `rule` over the lexemes `from..to`.
pub(crate) fn make_tree(inp: &Source, rule: Rule, from: usize, to: usize, children: Vec<ParseNode>) -> (n:
    ParseNode)
    requires
        inp.wf(),
        from < to <= inp.len(),
    ensures
        n@ == tree(inp@, rule, from as int, to as int, trees_view(children@)),
{
    reveal(lexemes_wf);
    let start = inp.lexemes[from].start;
    let end = inp.lexemes[to - 1].end;
    ParseNode::new(rule, string_of(&inp.chars, start, end), children)
}

/// The node of the one lexeme at `pos`.
pub(crate) fn make_leaf(inp: &Source, rule: Rule, pos: usize) -> (n: ParseNode)
    requires
        inp.wf(),
        pos < inp.len(),
    ensures
        n@ == leaf(inp@, rule, pos as int),
{
    let children: Vec<ParseNode> = Vec::new();
    assert(trees_view(children@) =~= Seq::empty());
    make_tree(inp, rule, pos, pos + 1, children)
}

/// The rule of the operator at `pos`, if it is one of the level `level`.
fn operator_at(inp: &Source, pos: usize, level: u8) -> (r: Option<Rule>)
    ensures
        r == op_rule(inp@, pos as int, level as nat),
        r is Some ==> pos < inp.len(),
{
    match kind(inp, pos) {
        Some(LexKind::Eq) => if level == 0 {
            Some(Rule::Eq)
        } else {
            None
        },
        Some(LexKind::NotEq) => if level == 0 {
            Some(Rule::NotEq)
        } else {
            None
        },
        Some(LexKind::Lt) => if level == 0 {
            Some(Rule::Lt)
        } else {
            None
        },
        Some(LexKind::Gt) => if level == 0 {
            Some(Rule::Gt)
        } else {
            None
        },
        Some(LexKind::LtEq) => if level == 0 {
            Some(Rule::LtEq)
        } else {
            None
        },
        Some(LexKind::GtEq) => if level == 0 {
            Some(Rule::GtEq)
        } else {
            None
        },
        Some(LexKind::Plus) => if level == 1 {
            Some(Rule::Add)
        } else {
            None
        },
        Some(LexKind::Dash) => if level == 1 {
            Some(Rule::Sub)
        } else {
            None
        },
        Some(LexKind::Star) => if level == 2 {
            Some(Rule::Mul)
        } else {
            None
        },
        Some(LexKind::Slash) => if level == 2 {
            Some(Rule::Div)
        } else {
            None
        },
        Some(LexKind::Percent) => if level == 2 {
            Some(Rule::Mod)
        } else {
            None
        },
        _ => None,
    }
}

/// The vector of one node.
pub(crate) fn one(a: ParseNode) -> (v: Vec<ParseNode>)
    ensures
        trees_view(v@) == seq![a@],
        v@.len() == 1,
        v@[0] == a,
{
    let mut v: Vec<ParseNode> = Vec::new();
    v.push(a);
    assert(trees_view(v@) =~= seq![a@]);
    v
}

/// The vector of two nodes.
pub(crate) fn two(a: ParseNode, b: ParseNode) -> (v: Vec<ParseNode>)
    ensures
        trees_view(v@) == seq![a@, b@],
{
    let mut v: Vec<ParseNode> = Vec::new();
    v.push(a);
    v.push(b);
    assert(trees_view(v@) =~= seq![a@, b@]);
    v
}

/// Parses an expression.
pub fn parse_expr(inp: &Source, pos: usize) -> (r: Option<(ParseNode, usize)>)
    requires
        inp.wf(),
        pos <= inp.len(),
    ensures
        parsed_as(r, expr_spec(inp@, pos as int)),
        proceeds(inp, r, pos),
    decreases inp.len() - pos, 20nat,
{
    parse_junction(inp, pos, true)
}

/// Whether the word that joins the operands of a junction stands at `pos`.
fn at_junction(inp: &Source, pos: usize, disj: bool) -> (r: bool)
    requires
        inp.wf(),
    ensures
        r == is_kw(
            inp@,
            pos as int,
            if disj {
                "or"@
            } else {
                "and"@
            },
        ),
        r ==> pos < inp.len(),
{
    if disj {
        at_kw(inp, pos, "or")
    } else {
        at_kw(inp, pos, "and")
    }
}

/// Parses a junction of the kind OR, if `disj`, else of the kind AND.
fn parse_junction(inp: &Source, pos: usize, disj: bool) -> (r: Option<(ParseNode, usize)>)
    requires
        inp.wf(),
        pos <= inp.len(),
    ensures
        parsed_as(r, junction_spec(inp@, pos as int, disj)),
        proceeds(inp, r, pos),
    decreases inp.len() - pos,
        if disj {
            19nat
        } else {
            17nat
        },
{
    let (first, next) = match (if disj {
        parse_junction(inp, pos, false)
    } else {
        parse_negation(inp, pos)
    }) {
        Some(x) => x,
        None => {
            return None;
        },
    };
    let mut acc = one(first);
    let mut p: usize = next;
    while at_junction(inp, p, disj)
        invariant
            inp.wf(),
            pos < p <= inp.len(),
            acc@.len() >= 1,
            junction_tail(inp@, pos as int, p as int, disj, trees_view(acc@)) == junction_spec(
                inp@,
                pos as int,
                disj,
            ),
        decreases inp.len() - p,
    {
        match (if disj {
            parse_junction(inp, p + 1, false)
        } else {
            parse_negation(inp, p + 1)
        }) {
            Some((operand, after)) => {
                proof {
                    lemma_trees_view_push(acc@, operand);
                }
                acc.push(operand);
                p = after;
            },
            None => {
                return None;
            },
        }
    }
    if acc.len() == 1 {
        match acc.pop() {
            Some(only) => Some((only, p)),
            None => None,
        }
    } else {
        let rule = if disj {
            Rule::Or
        } else {
            Rule::And
        };
        Some((make_tree(inp, rule, pos, p, acc), p))
    }
}

/// Parses a negation.
fn parse_negation(inp: &Source, pos: usize) -> (r: Option<(ParseNode, usize)>)
    requires
        inp.wf(),
        pos <= inp.len(),
    ensures
        parsed_as(r, negation_spec(inp@, pos as int)),
        proceeds(inp, r, pos),
    decreases inp.len() - pos, 16nat,
{
    if at_kw(inp, pos, "not") {
        match parse_negation(inp, pos + 1) {
            Some((operand, next)) => Some((make_tree(inp, Rule::Not, pos, next, one(operand)), next)),
            None => None,
        }
    } else {
        parse_binary(inp, pos, 0)
    }
}

/// Parses a chain of operators of the level `level`.
fn parse_binary(inp: &Source, pos: usize, level: u8) -> (r: Option<(ParseNode, usize)>)
    requires
        inp.wf(),
        pos <= inp.len(),
    ensures
        parsed_as(r, binary_spec(inp@, pos as int, level as nat)),
        proceeds(inp, r, pos),
    decreases inp.len() - pos,
        if level <= 3 {
            (15 - level) as nat
        } else {
            12nat
        },
{
    if level >= 3 {
        return parse_unary(inp, pos);
    }
    let (first, next) = match parse_binary(inp, pos, level + 1) {
        Some(x) => x,
        None => {
            return None;
        },
    };
    let mut left = first;
    let mut p: usize = next;
    loop
        invariant
            inp.wf(),
            level < 3,
            pos < p <= inp.len(),
            binary_tail(inp@, pos as int, p as int, level as nat, left@) == binary_spec(
                inp@,
                pos as int,
                level as nat,
            ),
        ensures
            pos < p <= inp.len(),
            binary_spec(inp@, pos as int, level as nat) == Some((left@, p as int)),
        decreases inp.len() - p,
    {
        match operator_at(inp, p, level) {
            Some(rule) => {
                match parse_binary(inp, p + 1, level + 1) {
                    Some((right, after)) => {
                        left = make_tree(inp, rule, pos, after, two(left, right));
                        p = after;
                    },
                    None => {
                        return None;
                    },
                }
            },
            None => {
                break ;
            },
        }
    }
    Some((left, p))
}

/// Parses a unary expression.
fn parse_unary(inp: &Source, pos: usize) -> (r: Option<(ParseNode, usize)>)
    requires
        inp.wf(),
        pos <= inp.len(),
    ensures
        parsed_as(r, unary_spec(inp@, pos as int)),
        proceeds(inp, r, pos),
    decreases inp.len() - pos, 11nat,
{
    if kind_is(inp, pos, LexKind::Dash) {
        match parse_unary(inp, pos + 1) {
            Some((operand, next)) => Some(
                (make_tree(inp, Rule::Negate, pos, next, one(operand)), next),
            ),
            None => None,
        }
    } else {
        let (first, next) = match parse_atom(inp, pos) {
            Some(x) => x,
            None => {
                return None;
            },
        };
        let mut base = first;
        let mut p: usize = next;
        while kind_is(inp, p, LexKind::Dot) && kind_is(inp, p + 1, LexKind::Word)
            invariant
                inp.wf(),
                pos < p <= inp.len(),
                lookups_spec(inp@, pos as int, p as int, base@) == lookups_spec(
                    inp@,
                    pos as int,
                    next as int,
                    first@,
                ),
            decreases inp.len() - p,
        {
            let key = make_leaf(inp, Rule::Id, p + 1);
            base = make_tree(inp, Rule::PropLookup, pos, p + 2, two(base, key));
            p = p + 2;
        }
        Some((base, p))
    }
}

/// An atom that starts with a word: a literal, a call of a function, or an
/// identifier.
pub open spec fn word_atom_spec(inp: Input, pos: int) -> Parsed
    decreases inp.len() - pos, 8nat,
{
    if is_kw(inp, pos, "true"@) {
        Some((leaf(inp, Rule::True, pos), pos + 1))
    } else if is_kw(inp, pos, "false"@) {
        Some((leaf(inp, Rule::False, pos), pos + 1))
    } else if is_kw(inp, pos, "null"@) {
        Some((leaf(inp, Rule::Null, pos), pos + 1))
    } else if is_reserved(inp, pos) {
        None
    } else if kind_at(inp, pos + 1) == Some(LexKind::LParen) {
        call_spec(inp, pos)
    } else {
        Some((leaf(inp, Rule::Id, pos), pos + 1))
    }
}

/// A call of a function: `word ( [expr (, expr)*] )`.
pub open spec fn call_spec(inp: Input, pos: int) -> Parsed
    decreases inp.len() - pos, 7nat,
{
    if kind_at(inp, pos + 1) != Some(LexKind::LParen) {
        None
    } else {
        match expr_list_spec(inp, pos + 2, LexKind::RParen) {
            Some((args, next)) => Some(
                (
                    tree(inp, Rule::FuncCall, pos, next, seq![leaf(inp, Rule::Id, pos)] + args),
                    next,
                ),
            ),
            None => None,
        }
    }
}

/// Parses a call of a function.
fn parse_call(inp: &Source, pos: usize) -> (r: Option<(ParseNode, usize)>)
    requires
        inp.wf(),
        kind_at(inp@, pos + 1) == Some(LexKind::LParen),
    ensures
        parsed_as(r, call_spec(inp@, pos as int)),
        proceeds(inp, r, pos),
    decreases inp.len() - pos, 7nat,
{
    match parse_expr_list_to(inp, pos + 2, LexKind::RParen) {
        Some((args, next)) => {
            let name = make_leaf(inp, Rule::Id, pos);
            let mut children = one(name);
            let mut args = args;
            let ghost all = seq![name@] + trees_view(args@);
            children.append(&mut args);
            assert(trees_view(children@) =~= all);
            Some((make_tree(inp, Rule::FuncCall, pos, next, children), next))
        },
        None => None,
    }
}

/// Parses an atom that starts with a word.
fn parse_word_atom(inp: &Source, pos: usize) -> (r: Option<(ParseNode, usize)>)
    requires
        inp.wf(),
        pos < inp.len(),
        kind_at(inp@, pos as int) == Some(LexKind::Word),
    ensures
        parsed_as(r, word_atom_spec(inp@, pos as int)),
        proceeds(inp, r, pos),
    decreases inp.len() - pos, 8nat,
{
    if at_kw(inp, pos, "true") {
        Some((make_leaf(inp, Rule::True, pos), pos + 1))
    } else if at_kw(inp, pos, "false") {
        Some((make_leaf(inp, Rule::False, pos), pos + 1))
    } else if at_kw(inp, pos, "null") {
        Some((make_leaf(inp, Rule::Null, pos), pos + 1))
    } else if reserved(inp, pos) {
        None
    } else if kind_is(inp, pos + 1, LexKind::LParen) {
        parse_call(inp, pos)
    } else {
        Some((make_leaf(inp, Rule::Id, pos), pos + 1))
    }
}

/// Parses an atom.
fn parse_atom(inp: &Source, pos: usize) -> (r: Option<(ParseNode, usize)>)
    requires
        inp.wf(),
        pos <= inp.len(),
    ensures
        parsed_as(r, atom_spec(inp@, pos as int)),
        proceeds(inp, r, pos),
    decreases inp.len() - pos, 9nat,
{
    match kind(inp, pos) {
        Some(LexKind::Int) => Some((make_leaf(inp, Rule::Int, pos), pos + 1)),
        Some(LexKind::Float) => Some((make_leaf(inp, Rule::Float, pos), pos + 1)),
        Some(LexKind::Str) => Some((make_leaf(inp, Rule::Str, pos), pos + 1)),
        Some(LexKind::Word) => parse_word_atom(inp, pos),
        Some(LexKind::LParen) => {
            match parse_expr(inp, pos + 1) {
                Some((inner, next)) => {
                    if kind_is(inp, next, LexKind::RParen) {
                        Some((inner, next + 1))
                    } else {
                        None
                    }
                },
                None => None,
            }
        },
        Some(LexKind::LBracket) => {
            match parse_expr_list_to(inp, pos + 1, LexKind::RBracket) {
                Some((items, next)) => Some((make_tree(inp, Rule::List, pos, next, items), next)),
                None => None,
            }
        },
        Some(LexKind::LBrace) => parse_map(inp, pos),
        _ => None,
    }
}

/// Parses the expressions of a list, up to and with the lexeme that closes
/// it.
pub(crate) fn parse_expr_list_to(inp: &Source, pos: usize, close: LexKind) -> (r: Option<
    (Vec<ParseNode>, usize),
>)
    requires
        inp.wf(),
        pos <= inp.len(),
    ensures
        parsed_list_as(r, expr_list_spec(inp@, pos as int, close)),
        proceeds(inp, r, pos),
    decreases inp.len() - pos, 22nat,
{
    let mut items: Vec<ParseNode> = Vec::new();
    assert(trees_view(items@) =~= Seq::empty());
    if kind_is(inp, pos, close) {
        return Some((items, pos + 1));
    }
    let mut p: usize = pos;
    loop
        invariant
            inp.wf(),
            pos <= p <= inp.len(),
            expr_list_tail(inp@, p as int, close, trees_view(items@)) == expr_list_spec(
                inp@,
                pos as int,
                close,
            ),
        decreases inp.len() - p,
    {
        if p >= inp.lexemes.len() {
            return None;
        }
        match parse_expr(inp, p) {
            Some((item, next)) => {
                proof {
                    lemma_trees_view_push(items@, item);
                }
                items.push(item);
                if kind_is(inp, next, LexKind::Comma) {
                    p = next + 1;
                } else if kind_is(inp, next, close) {
                    return Some((items, next + 1));
                } else {
                    return None;
                }
            },
            None => {
                return None;
            },
        }
    }
}

/// Parses a map literal.
pub fn parse_map(inp: &Source, pos: usize) -> (r: Option<(ParseNode, usize)>)
    requires
        inp.wf(),
        pos <= inp.len(),
    ensures
        parsed_as(r, map_spec(inp@, pos as int)),
        proceeds(inp, r, pos),
    decreases inp.len() - pos, 6nat,
{
    if !kind_is(inp, pos, LexKind::LBrace) {
        return None;
    }
    let mut pairs: Vec<ParseNode> = Vec::new();
    assert(trees_view(pairs@) =~= Seq::empty());
    if kind_is(inp, pos + 1, LexKind::RBrace) {
        return Some((make_tree(inp, Rule::MapLit, pos, pos + 2, pairs), pos + 2));
    }
    let mut p: usize = pos + 1;
    loop
        invariant
            inp.wf(),
            pos < p <= inp.len(),
            map_tail(inp@, pos as int, p as int, trees_view(pairs@)) == map_spec(inp@, pos as int),
        decreases inp.len() - p,
    {
        if !(kind_is(inp, p, LexKind::Word) && kind_is(inp, p + 1, LexKind::Colon)) {
            return None;
        }
        match parse_expr(inp, p + 2) {
            Some((value, next)) => {
                let key = make_leaf(inp, Rule::Id, p);
                let pair = make_tree(inp, Rule::MapPair, p, next, two(key, value));
                proof {
                    lemma_trees_view_push(pairs@, pair);
                }
                pairs.push(pair);
                if kind_is(inp, next, LexKind::Comma) {
                    p = next + 1;
                } else if kind_is(inp, next, LexKind::RBrace) {
                    return Some((make_tree(inp, Rule::MapLit, pos, next + 1, pairs), next + 1));
                } else {
                    return None;
                }
            },
            None => {
                return None;
            },
        }
    }
}

} // verus!
