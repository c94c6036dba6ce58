//! The state of one planning session.

use vstd::prelude::*;
use crate::backend::{intern_table, intern_token, BackendDesc, Token, Tokens};
use crate::frontend::scope::{Scope, ScopeView};
use crate::text::{decimal, lemma_decimal_injective, push_decimal};
use crate::value::Slot;

verus! {

/// The name of the `n`th relationship that the user gave no name.
pub open spec fn anon_rel_name(n: nat) -> Seq<char> {
    "AnonRel#"@ + decimal(n)
}

/// The name of the `n`th node that the user gave no name.
pub open spec fn anon_node_name(n: nat) -> Seq<char> {
    "AnonNode#"@ + decimal(n)
}

/// What follows a common beginning is the same in equal sequences.
proof fn lemma_same_rest(prefix: Seq<char>, a: Seq<char>, b: Seq<char>)
    requires
        prefix + a == prefix + b,
    ensures
        a == b,
{
    assert(a =~= (prefix + a).subrange(prefix.len() as int, (prefix + a).len() as int));
    assert(b =~= (prefix + b).subrange(prefix.len() as int, (prefix + b).len() as int));
}

/// The names made up for anonymous elements are unique: two of them are the
/// same only if they are of the same kind and have the same number.
pub proof fn lemma_anon_names_unique(n: nat, m: nat)
    ensures
        anon_rel_name(n) == anon_rel_name(m) ==> n == m,
        anon_node_name(n) == anon_node_name(m) ==> n == m,
        anon_rel_name(n) != anon_node_name(m),
{
    lemma_decimal_injective(n, m);
    if anon_rel_name(n) == anon_rel_name(m) {
        lemma_same_rest("AnonRel#"@, decimal(n), decimal(m));
    }
    if anon_node_name(n) == anon_node_name(m) {
        lemma_same_rest("AnonNode#"@, decimal(n), decimal(m));
    }
    reveal_strlit("AnonRel#");
    reveal_strlit("AnonNode#");
    assert(anon_rel_name(n)[4] == 'R');
    assert(anon_node_name(m)[4] == 'N');
}

/// Where the context stands with its scope: it has one, except while a
/// projection moves from the old scope to the new one.
#[derive(Debug)]
pub enum ScopeState {
    Active(Scope),
    Projecting,
}

/// The model of a planning context.
pub struct ContextView {
    /// The retired scopes, oldest first.
    pub history: Seq<ScopeView>,
    /// The active scope, if one is attached.
    pub scope: Option<ScopeView>,
    pub tokens: Seq<Seq<char>>,
    /// How many anonymous relationships were named so far.
    pub anon_rel_seq: nat,
    /// How many anonymous nodes were named so far.
    pub anon_node_seq: nat,
}

impl ContextView {
    /// A scope is attached.
    pub open spec fn active(self) -> bool {
        self.scope is Some
    }

    /// The context with another active scope.
    pub open spec fn with_scope(self, scope: ScopeView) -> ContextView {
        ContextView { scope: Some(scope), ..self }
    }

    /// The context with another token table.
    pub open spec fn with_tokens(self, tokens: Seq<Seq<char>>) -> ContextView {
        ContextView { tokens, ..self }
    }

    /// The token of `contents`.
    pub open spec fn token(self, contents: Seq<char>) -> Token {
        intern_token(self.tokens, contents) as usize
    }

    /// The context once `contents` has been interned.
    pub open spec fn tokenize(self, contents: Seq<char>) -> ContextView {
        self.with_tokens(intern_table(self.tokens, contents))
    }

    /// The context once the token has been declared in the active scope.
    pub open spec fn declare_tok(self, tok: Token) -> ContextView {
        self.with_scope(self.scope->0.declare(tok))
    }

    /// The context once the slot of the token has been asked for.
    pub open spec fn with_slot(self, tok: Token) -> ContextView {
        self.with_scope(self.scope->0.with_slot(tok))
    }

    /// The token of the next anonymous relationship.
    pub open spec fn anon_rel_token(self) -> Token {
        self.token(anon_rel_name(self.anon_rel_seq))
    }

    /// The token of the next anonymous node.
    pub open spec fn anon_node_token(self) -> Token {
        self.token(anon_node_name(self.anon_node_seq))
    }

    /// The context once another anonymous relationship has been named.
    pub open spec fn new_anon_rel(self) -> ContextView {
        ContextView {
            tokens: intern_table(self.tokens, anon_rel_name(self.anon_rel_seq)),
            anon_rel_seq: self.anon_rel_seq + 1,
            ..self
        }
    }

    /// The context once another anonymous node has been named.
    pub open spec fn new_anon_node(self) -> ContextView {
        ContextView {
            tokens: intern_table(self.tokens, anon_node_name(self.anon_node_seq)),
            anon_node_seq: self.anon_node_seq + 1,
            ..self
        }
    }
}

/// The models of a sequence of scopes.
pub open spec fn scopes_view(scopes: Seq<Scope>) -> Seq<ScopeView> {
    Seq::new(scopes.len(), |i: int| scopes[i]@)
}

/// What one planning session works in: the active scope, the retired scopes,
/// the table of tokens, the description of the backend, and the names given
/// out to anonymous pattern elements.
#[derive(Debug)]
pub struct PlanningContext<'i> {
    /// The scopes that projections have retired, oldest first.
    pub scope_history: Vec<Scope>,
    /// The active scope.
    pub state: ScopeState,
    pub tokens: Tokens,
    /// Description of the backend that the query is planned for.
    pub backend_desc: &'i BackendDesc,
    /// The tokens of the anonymous relationships, in the order of their naming.
    pub anon_rels: Vec<Token>,
    /// The tokens of the anonymous nodes, in the order of their naming.
    pub anon_nodes: Vec<Token>,
}

impl<'i> View for PlanningContext<'i> {
    type V = ContextView;

    open spec fn view(&self) -> ContextView {
        ContextView {
            history: scopes_view(self.scope_history@),
            scope: match self.state {
                ScopeState::Active(s) => Some(s@),
                ScopeState::Projecting => None,
            },
            tokens: self.tokens@,
            anon_rel_seq: self.anon_rels@.len(),
            anon_node_seq: self.anon_nodes@.len(),
        }
    }
}

impl<'i> PlanningContext<'i> {
    /// A context with one empty scope, over the given tokens.
    pub fn new(tokens: Tokens, bd: &'i BackendDesc) -> (pc: Self)
        ensures
            pc.backend_desc == bd,
            pc@ == (ContextView {
                history: Seq::empty(),
                scope: Some(ScopeView::empty()),
                tokens: tokens@,
                anon_rel_seq: 0,
                anon_node_seq: 0,
            }),
    {
        let pc = PlanningContext {
            scope_history: Vec::new(),
            state: ScopeState::Active(Scope::new()),
            tokens,
            backend_desc: bd,
            anon_rels: Vec::new(),
            anon_nodes: Vec::new(),
        };
        assert(pc@.history =~= Seq::empty());
        pc
    }

    /// Creates a new scope and returns it; it does not become the active one.
    pub fn create_scope(&mut self) -> (s: Scope)
        ensures
            *final(self) == *old(self),
            s@ == ScopeView::empty(),
    {
        Scope::new()
    }

    /// Whether a scope is attached.
    pub fn has_scope(&self) -> (active: bool)
        ensures
            active == self@.active(),
    {
        match &self.state {
            ScopeState::Active(_) => true,
            ScopeState::Projecting => false,
        }
    }

    /// The active scope.
    pub fn scope(&self) -> (s: &Scope)
        requires
            self@.active(),
        ensures
            Some(s@) == self@.scope,
    {
        match &self.state {
            ScopeState::Active(s) => s,
            ScopeState::Projecting => vstd::pervasive::unreached(),
        }
    }

    /// The active scope, to change it.
    pub fn scope_mut(&mut self) -> (s: &mut Scope)
        requires
            old(self)@.active(),
        ensures
            Some(s@) == old(self)@.scope,
            final(self)@ == old(self)@.with_scope(final(s)@),
            final(self).backend_desc == old(self).backend_desc,
    {
        match &mut self.state {
            ScopeState::Active(s) => s,
            ScopeState::Projecting => vstd::pervasive::unreached(),
        }
    }

    /// Takes the active scope out of the context and hands it over. A
    /// projection does so to plan its expressions in the old scope while it
    /// fills the new one.
    pub fn detach_scope(&mut self) -> (s: Scope)
        requires
            old(self)@.active(),
        ensures
            Some(s@) == old(self)@.scope,
            final(self)@ == (ContextView { scope: None, ..old(self)@ }),
            final(self).backend_desc == old(self).backend_desc,
    {
        let mut state = ScopeState::Projecting;
        core::mem::swap(&mut self.state, &mut state);
        match state {
            ScopeState::Active(s) => s,
            ScopeState::Projecting => vstd::pervasive::unreached(),
        }
    }

    /// Makes `s` the active scope.
    pub fn attach_scope(&mut self, s: Scope)
        ensures
            final(self)@ == old(self)@.with_scope(s@),
            final(self).backend_desc == old(self).backend_desc,
    {
        self.state = ScopeState::Active(s);
    }

    /// Retires `s`: it becomes the newest scope of the history.
    pub fn retire_scope(&mut self, s: Scope)
        ensures
            final(self)@ == (ContextView { history: old(self)@.history.push(s@), ..old(self)@ }),
            final(self).backend_desc == old(self).backend_desc,
    {
        self.scope_history.push(s);
        assert(self@.history =~= old(self)@.history.push(s@));
    }

    /// The token of `contents`. It is not declared: see `declare` for a named
    /// identifier that a projection of everything should show.
    pub fn tokenize(&mut self, contents: &str) -> (tok: Token)
        ensures
            final(self)@ == old(self)@.tokenize(contents@),
            tok == intern_token(old(self)@.tokens, contents@),
            final(self).backend_desc == old(self).backend_desc,
    {
        self.tokens.tokenize(contents)
    }

    /// Interns `contents` and declares the token in the active scope.
    pub fn declare(&mut self, contents: &str) -> (tok: Token)
        requires
            old(self)@.active(),
        ensures
            tok == intern_token(old(self)@.tokens, contents@),
            final(self)@ == old(self)@.tokenize(contents@).declare_tok(tok),
            final(self).backend_desc == old(self).backend_desc,
    {
        let tok = self.tokenize(contents);
        self.declare_tok(tok);
        tok
    }

    /// Declares the token in the active scope; true if it was not declared.
    pub fn declare_tok(&mut self, tok: Token) -> (is_new: bool)
        requires
            old(self)@.active(),
        ensures
            final(self)@ == old(self)@.declare_tok(tok),
            is_new == !old(self)@.scope->0.is_declared(tok),
            final(self).backend_desc == old(self).backend_desc,
    {
        self.scope_mut().declare_tok(tok)
    }

    /// Whether the token is declared in the active scope.
    pub fn is_declared(&self, tok: Token) -> (declared: bool)
        requires
            self@.active(),
        ensures
            declared == self@.scope->0.is_declared(tok),
    {
        self.scope().is_declared(tok)
    }

    /// The slot of the token in the active scope.
    pub fn get_or_alloc_slot(&mut self, tok: Token) -> (slot: Slot)
        requires
            old(self)@.active(),
        ensures
            final(self)@ == old(self)@.with_slot(tok),
            slot == old(self)@.scope->0.slot_for(tok),
            final(self).backend_desc == old(self).backend_desc,
    {
        self.scope_mut().get_or_alloc_slot(tok)
    }

    /// A fresh name for a relationship that the user gave none. The name is
    /// interned but not declared.
    pub fn new_anon_rel(&mut self) -> (tok: Token)
        ensures
            final(self)@ == old(self)@.new_anon_rel(),
            tok == intern_token(old(self)@.tokens, anon_rel_name(old(self)@.anon_rel_seq)),
            final(self).backend_desc == old(self).backend_desc,
    {
        let seq: usize = self.anon_rels.len();
        let mut name = String::from_str("AnonRel#");
        push_decimal(&mut name, seq as u64);
        let tok = self.tokens.tokenize(name.as_str());
        self.anon_rels.push(tok);
        tok
    }

    /// A fresh name for a node that the user gave none. The name is interned
    /// but not declared.
    pub fn new_anon_node(&mut self) -> (tok: Token)
        ensures
            final(self)@ == old(self)@.new_anon_node(),
            tok == intern_token(old(self)@.tokens, anon_node_name(old(self)@.anon_node_seq)),
            final(self).backend_desc == old(self).backend_desc,
    {
        let seq: usize = self.anon_nodes.len();
        let mut name = String::from_str("AnonNode#");
        push_decimal(&mut name, seq as u64);
        let tok = self.tokens.tokenize(name.as_str());
        self.anon_nodes.push(tok);
        tok
    }
}

} // verus!
