//! What the frontend shares with a backend: the table of tokens and the
//! description of the functions that the backend offers.

use vstd::prelude::*;
use crate::value::Type;

verus! {

/// Handle of an interned string.
pub type Token = usize;

/// The table after `s` was interned in `table`.
pub open spec fn intern_table(table: Seq<Seq<char>>, s: Seq<char>) -> Seq<Seq<char>> {
    if table.contains(s) {
        table
    } else {
        table.push(s)
    }
}

/// The token that interning `s` in `table` gives.
pub open spec fn intern_token(table: Seq<Seq<char>>, s: Seq<char>) -> int {
    if table.contains(s) {
        table.index_of(s)
    } else {
        table.len() as int
    }
}

/// Interning keeps the table free of duplicates and keeps what it held; the
/// token it gives is the place of the string in the new table.
pub proof fn lemma_intern(table: Seq<Seq<char>>, s: Seq<char>)
    requires
        table.no_duplicates(),
    ensures
        intern_table(table, s).no_duplicates(),
        0 <= intern_token(table, s) < intern_table(table, s).len(),
        intern_table(table, s)[intern_token(table, s)] == s,
        table.len() <= intern_table(table, s).len() <= table.len() + 1,
        forall|i: int| 0 <= i < table.len() ==> intern_table(table, s)[i] == table[i],
{
}

/// A string keeps its token, whatever is interned after it.
pub proof fn lemma_intern_stable(table: Seq<Seq<char>>, s: Seq<char>, later: Seq<char>)
    requires
        table.no_duplicates(),
    ensures
        intern_token(intern_table(intern_table(table, s), later), s) == intern_token(table, s),
{
    lemma_intern(table, s);
    let t1 = intern_table(table, s);
    let k = intern_token(table, s);
    lemma_intern(t1, later);
    let t2 = intern_table(t1, later);
    assert(t2[k] == s);
    assert(t2.contains(s));
}

/// Interning is by string equality: of two strings interned one after the
/// other, the tokens are equal exactly when the strings are.
pub proof fn lemma_intern_injective(table: Seq<Seq<char>>, s1: Seq<char>, s2: Seq<char>)
    requires
        table.no_duplicates(),
    ensures
        intern_token(table, s1) == intern_token(intern_table(table, s1), s2) <==> s1 == s2,
{
    lemma_intern(table, s1);
    let t1 = intern_table(table, s1);
    let k1 = intern_token(table, s1);
    lemma_intern(t1, s2);
    if s1 == s2 {
        assert(t1.contains(s2));
    } else {
        let k2 = intern_token(t1, s2);
        let t2 = intern_table(t1, s2);
        assert(t2[k1] == s1);
        assert(t2[k2] == s2);
    }
}

/// The strings seen during planning, each with a small integer that stands
/// for it. The table only grows.
#[derive(Debug)]
pub struct Tokens {
    table: Vec<String>,
}

impl View for Tokens {
    type V = Seq<Seq<char>>;

    closed spec fn view(&self) -> Seq<Seq<char>> {
        Seq::new(self.table.len() as nat, |i: int| self.table[i]@)
    }
}

impl Tokens {
    /// No string stands twice in the table.
    #[verifier::type_invariant]
    pub open spec fn wf(&self) -> bool {
        self@.no_duplicates()
    }

    /// An empty table.
    pub fn new() -> (t: Tokens)
        ensures
            t.wf(),
            t@ == Seq::<Seq<char>>::empty(),
    {
        let t = Tokens { table: Vec::new() };
        assert(t@ =~= Seq::<Seq<char>>::empty());
        t
    }

    /// The number of tokens.
    pub fn len(&self) -> (n: usize)
        ensures
            n == self@.len(),
    {
        self.table.len()
    }

    /// The token of `contents`, which is added to the table if it is new.
    pub fn tokenize(&mut self, contents: &str) -> (tok: Token)
        ensures
            final(self).wf(),
            final(self)@ == intern_table(old(self)@, contents@),
            tok == intern_token(old(self)@, contents@),
    {
        proof {
            use_type_invariant(&*self);
        }
        let owned = String::from_str(contents);
        let n: usize = self.table.len();
        let mut i: usize = 0;
        while i < n
            invariant
                n == self.table.len(),
                i <= n,
                *self == *old(self),
                old(self).wf(),
                owned@ == contents@,
                forall|j: int| 0 <= j < i ==> self@[j] != contents@,
            decreases n - i,
        {
            if self.table[i] == owned {
                assert(self@[i as int] == contents@);
                assert(self@.contains(contents@));
                assert(self@.index_of(contents@) == i);
                return i;
            }
            i += 1;
        }
        assert(!self@.contains(contents@));
        let mut table: Vec<String> = Vec::new();
        core::mem::swap(&mut table, &mut self.table);
        table.push(owned);
        assert(Seq::new(table.len() as nat, |i: int| table[i]@) =~= old(self)@.push(contents@));
        self.table = table;
        assert(self@ =~= old(self)@.push(contents@));
        n
    }

    /// The string of a token, if the token is of this table.
    pub fn lookup(&self, tok: Token) -> (s: Option<&str>)
        ensures
            match s {
                Some(text) => tok < self@.len() && text@ == self@[tok as int],
                None => tok >= self@.len(),
            },
    {
        if tok < self.table.len() {
            Some(self.table[tok].as_str())
        } else {
            None
        }
    }
}

/// Whether a function computes on one row or over a group of rows.
#[derive(Clone, Copy, Debug, PartialEq, Eq)]
pub enum FuncType {
    Scalar,
    Aggregating,
}

/// One function that the backend offers.
#[derive(Debug, Clone)]
pub struct FuncSignature {
    pub func_type: FuncType,
    pub name: Token,
    pub returns: Type,
    pub args: Vec<(Token, Type)>,
}

/// The kind of the first of `functions[from..]` that is named `name`.
pub open spec fn func_type_from(functions: Seq<FuncSignature>, name: Token, from: int) -> Option<
    FuncType,
>
    decreases functions.len() - from,
{
    if 0 <= from < functions.len() {
        if functions[from].name == name {
            Some(functions[from].func_type)
        } else {
            func_type_from(functions, name, from + 1)
        }
    } else {
        None
    }
}

/// What a backend tells the frontend about itself.
#[derive(Debug)]
pub struct BackendDesc {
    pub functions: Vec<FuncSignature>,
}

impl BackendDesc {
    /// The description of a backend that offers `functions`.
    pub fn new(functions: Vec<FuncSignature>) -> (bd: BackendDesc)
        ensures
            bd.functions == functions,
    {
        BackendDesc { functions }
    }

    /// The kind of the function named `name`: that of the first signature
    /// with this name, if there is one.
    pub open spec fn func_type_of(&self, name: Token) -> Option<FuncType> {
        func_type_from(self.functions@, name, 0)
    }

    /// Looks a function up by its name.
    pub fn find(&self, name: Token) -> (found: Option<FuncType>)
        ensures
            found == self.func_type_of(name),
    {
        let n: usize = self.functions.len();
        let mut i: usize = 0;
        while i < n
            invariant
                n == self.functions.len(),
                i <= n,
                func_type_from(self.functions@, name, i as int) == self.func_type_of(name),
            decreases n - i,
        {
            if self.functions[i].name == name {
                return Some(self.functions[i].func_type);
            }
            i += 1;
        }
        None
    }
}

} // verus!
