//! Scopes, which tie the names of one query segment to the slots of the row,
//! and the context that one planning session works in.

use vstd::prelude::*;
use crate::backend::{intern_table, intern_token, Token, Tokens};
use crate::value::Slot;

verus! {

/// The model of a scope: for each slot the token it was given to, if any, and
/// the identifiers that the user wrote, in the order of their declaration.
pub struct ScopeView {
    pub bindings: Seq<Option<Token>>,
    pub named: Seq<Token>,
}

impl ScopeView {
    /// No token owns two slots, and no identifier is declared twice.
    pub open spec fn wf(self) -> bool {
        &&& forall|i: int, j: int|
            0 <= i < j < self.bindings.len() && self.bindings[i] is Some ==> self.bindings[i]
                != self.bindings[j]
        &&& self.named.no_duplicates()
    }

    /// The scope without slots and identifiers.
    pub open spec fn empty() -> ScopeView {
        ScopeView { bindings: Seq::empty(), named: Seq::empty() }
    }

    /// The number of slots given out so far.
    pub open spec fn next_slot(self) -> nat {
        self.bindings.len()
    }

    /// Whether the token owns a slot.
    pub open spec fn has_slot(self, tok: Token) -> bool {
        self.bindings.contains(Some(tok))
    }

    /// The slot that the token owns, where it owns one.
    pub open spec fn slot_of(self, tok: Token) -> int {
        self.bindings.index_of(Some(tok))
    }

    /// The slot of the token once it has been asked for.
    pub open spec fn slot_for(self, tok: Token) -> int {
        if self.has_slot(tok) {
            self.slot_of(tok)
        } else {
            self.bindings.len() as int
        }
    }

    /// The scope once the slot of the token has been asked for.
    pub open spec fn with_slot(self, tok: Token) -> ScopeView {
        if self.has_slot(tok) {
            self
        } else {
            ScopeView { bindings: self.bindings.push(Some(tok)), named: self.named }
        }
    }

    /// The scope with `n` more slots that no token owns.
    pub open spec fn reserve(self, n: nat) -> ScopeView {
        ScopeView {
            bindings: self.bindings + Seq::new(n, |i: int| None::<Token>),
            named: self.named,
        }
    }

    /// Whether the user wrote the identifier.
    pub open spec fn is_declared(self, tok: Token) -> bool {
        self.named.contains(tok)
    }

    /// The scope once the identifier has been declared.
    pub open spec fn declare(self, tok: Token) -> ScopeView {
        if self.named.contains(tok) {
            self
        } else {
            ScopeView { bindings: self.bindings, named: self.named.push(tok) }
        }
    }
}

/// Slot stability: once a slot has been asked for, every later request for the
/// same token gives that slot and leaves the scope as it is, whatever other
/// tokens were asked for in between.
pub proof fn lemma_slot_stable(scope: ScopeView, tok: Token, other: Token)
    requires
        scope.wf(),
    ensures
        scope.with_slot(tok).wf(),
        scope.with_slot(tok).slot_for(tok) == scope.slot_for(tok),
        scope.with_slot(tok).with_slot(tok) == scope.with_slot(tok),
        scope.with_slot(tok).with_slot(other).slot_for(tok) == scope.slot_for(tok),
        0 <= scope.slot_for(tok) < scope.with_slot(tok).next_slot(),
        scope.with_slot(tok).bindings[scope.slot_for(tok)] == Some(tok),
        scope.next_slot() <= scope.with_slot(tok).next_slot() <= scope.next_slot() + 1,
        scope.with_slot(tok).named == scope.named,
{
    let s1 = scope.with_slot(tok);
    let k = scope.slot_for(tok);
    assert(s1.bindings[k] == Some(tok));
    assert(s1.has_slot(tok));
    assert(s1.wf());
    let s2 = s1.with_slot(other);
    assert(s2.bindings[k] == Some(tok));
    assert(s2.has_slot(tok));
    assert(s2.wf());
}

/// The scope once the slots of the tokens `toks[from..]` have been asked for.
pub open spec fn with_slots(scope: ScopeView, toks: Seq<Token>, from: int) -> ScopeView
    decreases toks.len() - from,
{
    if 0 <= from < toks.len() {
        with_slots(scope.with_slot(toks[from]), toks, from + 1)
    } else {
        scope
    }
}

/// Slot stability, in general: a token that owns a slot keeps it, however
/// many slots are asked for, reserved or declared afterwards.
pub proof fn lemma_slot_kept(scope: ScopeView, tok: Token, later: Seq<Token>, from: int, n: nat)
    requires
        scope.wf(),
        scope.has_slot(tok),
    ensures
        with_slots(scope, later, from).wf(),
        with_slots(scope, later, from).has_slot(tok),
        with_slots(scope, later, from).slot_for(tok) == scope.slot_for(tok),
        scope.reserve(n).wf(),
        scope.reserve(n).slot_for(tok) == scope.slot_for(tok),
        scope.declare(tok).slot_for(tok) == scope.slot_for(tok),
    decreases later.len() - from,
{
    let k = scope.slot_of(tok);
    if 0 <= from < later.len() {
        let next = scope.with_slot(later[from]);
        assert(next.bindings[k] == Some(tok));
        assert(next.has_slot(tok));
        assert(next.wf());
        lemma_slot_kept(next, tok, later, from + 1, n);
    }
    let reserved = scope.reserve(n);
    assert(reserved.bindings[k] == Some(tok));
    assert(reserved.has_slot(tok));
    assert(reserved.wf());
}

/// Two different tokens never share a slot.
pub proof fn lemma_slots_differ(scope: ScopeView, a: Token, b: Token)
    requires
        scope.wf(),
        a != b,
    ensures
        scope.with_slot(a).with_slot(b).slot_for(a) != scope.with_slot(a).with_slot(b).slot_for(b),
{
    lemma_slot_stable(scope, a, b);
    lemma_slot_stable(scope.with_slot(a), b, a);
    let s2 = scope.with_slot(a).with_slot(b);
    lemma_slot_stable(s2, a, b);
    lemma_slot_stable(s2, b, a);
}

/// Variable scopes, like lexical scopes in most programming languages. A
/// projection opens a new scope.
#[derive(Debug)]
pub struct Scope {
    /// For each slot, the token that it was given to. A reserved slot has none.
    bindings: Vec<Option<Token>>,
    /// Identifiers that the user has explicitly declared, in that order.
    named_identifiers: Vec<Token>,
}

impl View for Scope {
    type V = ScopeView;

    closed spec fn view(&self) -> ScopeView {
        ScopeView { bindings: self.bindings@, named: self.named_identifiers@ }
    }
}

impl Scope {
    /// The invariant of a scope.
    #[verifier::type_invariant]
    pub open spec fn wf(&self) -> bool {
        self@.wf()
    }

    /// A scope without slots and identifiers.
    pub fn new() -> (s: Scope)
        ensures
            s.wf(),
            s@ == ScopeView::empty(),
    {
        Scope { bindings: Vec::new(), named_identifiers: Vec::new() }
    }

    /// A copy of this scope.
    pub fn clone(&self) -> (s: Scope)
        ensures
            s@ == self@,
            s.wf(),
    {
        proof {
            use_type_invariant(self);
        }
        Scope { bindings: self.bindings.clone(), named_identifiers: self.named_identifiers.clone() }
    }

    /// The number of slots given out so far.
    pub fn num_slots(&self) -> (n: usize)
        ensures
            n == self@.next_slot(),
    {
        self.bindings.len()
    }

    /// Sets `num_to_reserve` slots aside that no token owns.
    pub fn reserve_slots(&mut self, num_to_reserve: usize)
        ensures
            final(self).wf(),
            final(self)@ == old(self)@.reserve(num_to_reserve as nat),
    {
        proof {
            use_type_invariant(&*self);
        }
        let mut bindings: Vec<Option<Token>> = Vec::new();
        core::mem::swap(&mut bindings, &mut self.bindings);
        let mut i: usize = 0;
        assert(bindings@ =~= old(self)@.reserve(0).bindings);
        while i < num_to_reserve
            invariant
                i <= num_to_reserve,
                bindings@ == old(self)@.reserve(i as nat).bindings,
            decreases num_to_reserve - i,
        {
            bindings.push(None);
            i += 1;
            assert(bindings@ =~= old(self)@.reserve(i as nat).bindings);
        }
        self.bindings = bindings;
    }

    /// The identifiers that the user has declared, in the order of their
    /// declaration.
    pub fn named(&self) -> (ids: &Vec<Token>)
        ensures
            ids@ == self@.named,
    {
        &self.named_identifiers
    }

    /// Declares a named identifier in this scope if it is not declared yet;
    /// the identifier becomes visible to a projection of everything. Returns
    /// true if the token was not declared before.
    pub fn declare_tok(&mut self, tok: Token) -> (is_new: bool)
        ensures
            final(self).wf(),
            final(self)@ == old(self)@.declare(tok),
            is_new == !old(self)@.is_declared(tok),
    {
        proof {
            use_type_invariant(&*self);
        }
        if self.is_declared(tok) {
            false
        } else {
            let mut named: Vec<Token> = Vec::new();
            core::mem::swap(&mut named, &mut self.named_identifiers);
            named.push(tok);
            self.named_identifiers = named;
            true
        }
    }

    /// Interns `contents` in `tokens` and declares the token in this scope.
    pub fn declare(&mut self, tokens: &mut Tokens, contents: &str) -> (tok: Token)
        ensures
            final(self).wf(),
            final(tokens).wf(),
            final(tokens)@ == intern_table(old(tokens)@, contents@),
            tok == intern_token(old(tokens)@, contents@),
            final(self)@ == old(self)@.declare(tok),
    {
        proof {
            use_type_invariant(&*self);
        }
        let tok = tokens.tokenize(contents);
        self.declare_tok(tok);
        tok
    }

    /// Whether the user wrote this identifier in this scope. This tells a
    /// reference to something known from the introduction of something new.
    pub fn is_declared(&self, tok: Token) -> (declared: bool)
        ensures
            declared == self@.is_declared(tok),
    {
        let n: usize = self.named_identifiers.len();
        let mut i: usize = 0;
        while i < n
            invariant
                n == self.named_identifiers.len(),
                i <= n,
                forall|j: int| 0 <= j < i ==> self.named_identifiers@[j] != tok,
            decreases n - i,
        {
            if self.named_identifiers[i] == tok {
                return true;
            }
            i += 1;
        }
        false
    }

    /// The slot of the token, if it owns one.
    pub fn slot(&self, tok: Token) -> (found: Option<Slot>)
        ensures
            match found {
                Some(slot) => self@.has_slot(tok) && slot == self@.slot_of(tok),
                None => !self@.has_slot(tok),
            },
    {
        proof {
            use_type_invariant(self);
        }
        let n: usize = self.bindings.len();
        let mut i: usize = 0;
        while i < n
            invariant
                n == self.bindings.len(),
                i <= n,
                self.wf(),
                forall|j: int| 0 <= j < i ==> self.bindings@[j] != Some(tok),
            decreases n - i,
        {
            match self.bindings[i] {
                Some(owner) => {
                    if owner == tok {
                        assert(self@.bindings[i as int] == Some(tok));
                        assert(self@.bindings.index_of(Some(tok)) == i);
                        return Some(i);
                    }
                },
                None => {},
            }
            i += 1;
        }
        None
    }

    /// The slot of the token: the one it owns, or else the next free slot,
    /// which it then owns.
    pub fn get_or_alloc_slot(&mut self, tok: Token) -> (slot: Slot)
        ensures
            final(self).wf(),
            final(self)@ == old(self)@.with_slot(tok),
            slot == old(self)@.slot_for(tok),
    {
        proof {
            use_type_invariant(&*self);
        }
        match self.slot(tok) {
            Some(slot) => slot,
            None => {
                let mut bindings: Vec<Option<Token>> = Vec::new();
                core::mem::swap(&mut bindings, &mut self.bindings);
                let slot = bindings.len();
                bindings.push(Some(tok));
                self.bindings = bindings;
                slot
            },
        }
    }
}

} // verus!
