//! The structural token form that stage descriptions are written in, and the
//! read-only walker operations over it.
//!
//! A token is an identifier, a literal, a single punctuation character, or a
//! bracket/brace/paren-delimited group of nested tokens.  The mathematical
//! model of a token ([`TokenModel`]) replaces each piece of text by its
//! character sequence, so that two tokens are equal exactly when they are
//! structurally the same.

use vstd::prelude::*;

verus! {

/// Which bracket pair delimits a token group.
#[derive(Clone, Copy, PartialEq, Eq, Structural, Debug)]
pub enum Delim {
    Paren,
    Brace,
    Bracket,
}

/// One structural token.
#[derive(Debug, PartialEq, Eq)]
pub enum Token {
    Ident(String),
    Lit(String),
    Punct(char),
    Group(Delim, Vec<Token>),
}

/// Mathematical model of a token: text becomes a character sequence and a
/// group holds the models of its nested tokens.
#[verifier::ext_equal]
pub enum TokenModel {
    Ident(Seq<char>),
    Lit(Seq<char>),
    Punct(char),
    Group(Delim, Seq<TokenModel>),
}

/// The model of one token.
pub open spec fn token_model(t: Token) -> TokenModel
    decreases t,
{
    match t {
        Token::Ident(s) => TokenModel::Ident(s@),
        Token::Lit(s) => TokenModel::Lit(s@),
        Token::Punct(c) => TokenModel::Punct(c),
        Token::Group(d, ts) => TokenModel::Group(d, tokens_model(ts@)),
    }
}

/// The models of a token sequence, element by element.
pub open spec fn tokens_model(ts: Seq<Token>) -> Seq<TokenModel>
    decreases ts,
{
    if ts.len() == 0 {
        Seq::empty()
    } else {
        seq![token_model(ts[0])] + tokens_model(ts.drop_first())
    }
}

pub broadcast proof fn lemma_tokens_model_len(ts: Seq<Token>)
    ensures
        #[trigger] tokens_model(ts).len() == ts.len(),
    decreases ts,
{
    if ts.len() > 0 {
        lemma_tokens_model_len(ts.drop_first());
    }
}

pub broadcast proof fn lemma_tokens_model_index(ts: Seq<Token>, i: int)
    requires
        0 <= i < ts.len(),
    ensures
        #[trigger] tokens_model(ts)[i] == token_model(ts[i]),
    decreases ts,
{
    lemma_tokens_model_len(ts);
    if i > 0 {
        lemma_tokens_model_index(ts.drop_first(), i - 1);
    }
}

pub broadcast proof fn lemma_tokens_model_concat(a: Seq<Token>, b: Seq<Token>)
    ensures
        #[trigger] tokens_model(a + b) == tokens_model(a) + tokens_model(b),
{
    broadcast use lemma_tokens_model_len, lemma_tokens_model_index;

    assert forall|i: int| 0 <= i < a.len() + b.len() implies tokens_model(a + b)[i] == (
    tokens_model(a) + tokens_model(b))[i] by {
        if i < a.len() {
            assert((a + b)[i] == a[i]);
        } else {
            assert((a + b)[i] == b[i - a.len()]);
        }
    }
    assert(tokens_model(a + b) =~= tokens_model(a) + tokens_model(b));
}

pub broadcast proof fn lemma_tokens_model_push(ts: Seq<Token>, t: Token)
    ensures
        #[trigger] tokens_model(ts.push(t)) == tokens_model(ts).push(token_model(t)),
{
    broadcast use lemma_tokens_model_len, lemma_tokens_model_index;

    assert(tokens_model(ts.push(t)) =~= tokens_model(ts).push(token_model(t)));
}

/// Structural equality of two tokens: same kind, same text, same delimiter,
/// and structurally equal nested tokens.
pub fn token_eq(a: &Token, b: &Token) -> (r: bool)
    ensures
        r == (token_model(*a) == token_model(*b)),
    decreases *a,
{
    match (a, b) {
        (Token::Ident(x), Token::Ident(y)) => *x == *y,
        (Token::Lit(x), Token::Lit(y)) => *x == *y,
        (Token::Punct(x), Token::Punct(y)) => *x == *y,
        (Token::Group(d1, t1), Token::Group(d2, t2)) => *d1 == *d2 && tokens_eq(t1, t2),
        _ => false,
    }
}

/// Structural equality of two token sequences.
pub fn tokens_eq(a: &Vec<Token>, b: &Vec<Token>) -> (r: bool)
    ensures
        r == (tokens_model(a@) == tokens_model(b@)),
    decreases a@,
{
    broadcast use lemma_tokens_model_len, lemma_tokens_model_index;

    if a.len() != b.len() {
        return false;
    }
    let mut i: usize = 0;
    while i < a.len()
        invariant
            a@.len() == b@.len(),
            i <= a@.len(),
            forall|j: int| 0 <= j < i ==> token_model(a@[j]) == token_model(b@[j]),
        decreases a@.len() - i,
    {
        proof {
            assert(decreases_to!(a@ => a@[i as int]));
        }
        if !token_eq(&a[i], &b[i]) {
            proof {
                lemma_tokens_model_len(a@);
                lemma_tokens_model_len(b@);
                lemma_tokens_model_index(a@, i as int);
                lemma_tokens_model_index(b@, i as int);
                assert(tokens_model(a@)[i as int] != tokens_model(b@)[i as int]);
            }
            return false;
        }
        i = i + 1;
    }
    proof {
        assert(tokens_model(a@) =~= tokens_model(b@));
    }
    true
}

/// A structural copy of one token.
pub fn clone_token(t: &Token) -> (r: Token)
    ensures
        token_model(r) == token_model(*t),
    decreases *t,
{
    match t {
        Token::Ident(s) => Token::Ident(s.clone()),
        Token::Lit(s) => Token::Lit(s.clone()),
        Token::Punct(c) => Token::Punct(*c),
        Token::Group(d, ts) => Token::Group(*d, clone_tokens(ts)),
    }
}

impl Clone for Token {
    /// A structural copy of the token.
    fn clone(&self) -> (r: Self)
        ensures
            token_model(r) == token_model(*self),
    {
        clone_token(self)
    }
}

/// A structural copy of a token sequence.
pub fn clone_tokens(ts: &Vec<Token>) -> (r: Vec<Token>)
    ensures
        tokens_model(r@) == tokens_model(ts@),
    decreases ts@,
{
    broadcast use lemma_tokens_model_len, lemma_tokens_model_index;

    let mut r: Vec<Token> = Vec::new();
    let mut i: usize = 0;
    while i < ts.len()
        invariant
            i <= ts@.len(),
            r@.len() == i,
            forall|j: int| 0 <= j < i ==> token_model(r@[j]) == token_model(ts@[j]),
        decreases ts@.len() - i,
    {
        proof {
            assert(decreases_to!(ts@ => ts@[i as int]));
        }
        r.push(clone_token(&ts[i]));
        i = i + 1;
    }
    proof {
        assert(tokens_model(r@) =~= tokens_model(ts@));
    }
    r
}

} // verus!
