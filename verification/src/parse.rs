//! The attribute parser and the stage splitter: from a structural token
//! sequence to the stream-level attributes, the driver code, and the ordered
//! list of declared stages.
//!
//! Every parsing function is specified against a recursive model function
//! over [`TokenModel`] sequences; the model functions say exactly on which
//! inputs parsing succeeds and what it yields.

use vstd::prelude::*;

use crate::spar_stream::{
    stages_model, vars_model, AttrsModel, ReplicateModel, Replicate, SparAttrs, SparStage, SparVar,
    VarModel, VarType,
};
use crate::tokens::{
    clone_tokens, lemma_tokens_model_index, lemma_tokens_model_len, tokens_model, Delim, Token,
    TokenModel,
};

verus! {

/// A positioned parse error: a fixed diagnostic text and the index of the
/// offending token within the sequence that was being read.
#[derive(Debug)]
pub struct SparError {
    pub msg: String,
    pub pos: usize,
}

impl SparError {
    pub fn new(msg: &str, pos: usize) -> (r: Self)
        ensures
            r.msg@ == msg@,
            r.pos == pos,
    {
        SparError { msg: msg.to_owned(), pos }
    }
}

/// Whether the string equals the given keyword text.
pub fn str_is(s: &String, kw: &str) -> (r: bool)
    ensures
        r == (s@ == kw@),
{
    *s == kw.to_owned()
}

/// The index of the first top-level comma in `ts`, or `ts.len()` if there is
/// none.  Commas nested inside groups do not count.
pub open spec fn comma_index(ts: Seq<TokenModel>) -> int
    decreases ts.len(),
{
    if ts.len() == 0 {
        0
    } else if ts[0] == TokenModel::Punct(',') {
        0
    } else {
        1 + comma_index(ts.drop_first())
    }
}

pub proof fn lemma_comma_index(ts: Seq<TokenModel>)
    ensures
        0 <= comma_index(ts) <= ts.len(),
        forall|j: int| 0 <= j < comma_index(ts) ==> ts[j] != TokenModel::Punct(','),
        comma_index(ts) < ts.len() ==> ts[comma_index(ts)] == TokenModel::Punct(','),
    decreases ts.len(),
{
    if ts.len() > 0 && ts[0] != TokenModel::Punct(',') {
        lemma_comma_index(ts.drop_first());
        assert forall|j: int| 0 <= j < comma_index(ts) implies ts[j] != TokenModel::Punct(',') by {
            if j > 0 {
                assert(ts.drop_first()[j - 1] == ts[j]);
            }
        }
    }
}

/// Skips one expected punctuation token.  Succeeds exactly when the token at
/// `i` is the punctuation `c`, and then steps past it.
pub fn skip_punct(toks: &Vec<Token>, i: usize, c: char) -> (r: Result<usize, SparError>)
    ensures
        match r {
            Ok(j) => i < toks@.len() && tokens_model(toks@)[i as int] == TokenModel::Punct(c) && j
                == i + 1,
            Err(_) => !(i < toks@.len() && tokens_model(toks@)[i as int] == TokenModel::Punct(c)),
        },
{
    proof {
        lemma_tokens_model_len(toks@);
        if i < toks@.len() {
            lemma_tokens_model_index(toks@, i as int);
        }
    }
    if i < toks.len() {
        match &toks[i] {
            Token::Punct(p) => {
                if *p == c {
                    Ok(i + 1)
                } else {
                    Err(SparError::new("expected punctuation, found another", i))
                }
            },
            _ => Err(SparError::new("expected punctuation, found another token", i)),
        }
    } else {
        Err(SparError::new("expected punctuation, found end of input", i))
    }
}

/// Whether the token is a top-level comma.
fn is_comma_tok(t: &Token) -> (r: bool)
    ensures
        r == (crate::tokens::token_model(*t) == TokenModel::Punct(',')),
{
    match t {
        Token::Punct(p) => *p == ',',
        _ => false,
    }
}

/// Collects the type text after a `name :`, up to the next top-level comma
/// or the end of the variable list.  Fails only at end of input.
pub fn get_type(toks: &Vec<Token>, i: usize) -> (r: Result<(Vec<Token>, usize), SparError>)
    ensures
        match r {
            Ok(p) => {
                &&& i < toks@.len()
                &&& p.1 == i + comma_index(tokens_model(toks@).skip(i as int))
                &&& tokens_model(p.0@) == tokens_model(toks@).subrange(i as int, p.1 as int)
            },
            Err(_) => i >= toks@.len(),
        },
{
    proof {
        lemma_tokens_model_len(toks@);
    }
    if i >= toks.len() {
        return Err(SparError::new("expected type, found end of input", i));
    }
    let ghost m = tokens_model(toks@);
    let mut code: Vec<Token> = Vec::new();
    let mut j: usize = i;
    while j < toks.len() && !is_comma_tok(&toks[j])
        invariant
            i <= j <= toks@.len(),
            m == tokens_model(toks@),
            m.len() == toks@.len(),
            forall|k: int| i <= k < j ==> m[k] != TokenModel::Punct(','),
            tokens_model(code@) == m.subrange(i as int, j as int),
        decreases toks@.len() - j,
    {
        proof {
            lemma_tokens_model_index(toks@, j as int);
        }
        let ghost prev = code@;
        code.push(crate::tokens::clone_token(&toks[j]));
        proof {
            crate::tokens::lemma_tokens_model_push(prev, code@.last());
            assert(code@ =~= prev.push(code@.last()));
            assert(tokens_model(code@) =~= m.subrange(i as int, j + 1 as int));
        }
        j = j + 1;
    }
    proof {
        if j < toks@.len() {
            lemma_tokens_model_index(toks@, j as int);
        }
    }
    proof {
        lemma_comma_index(m.skip(i as int));
        let c = comma_index(m.skip(i as int));
        assert forall|k: int| 0 <= k < j - i implies m.skip(i as int)[k] != TokenModel::Punct(',')
            by {
            assert(m.skip(i as int)[k] == m[i + k]);
        }
        if j < toks@.len() {
            lemma_tokens_model_index(toks@, j as int);
            assert(m.skip(i as int)[j - i] == TokenModel::Punct(','));
            if c < j - i {
                assert(m[i + c] == TokenModel::Punct(','));
            }
            assert(c == j - i);
        } else {
            assert(c == j - i);
        }
    }
    Ok((code, j))
}

/// Whether the text is one or more decimal digits.
pub open spec fn is_dec_digits(s: Seq<char>) -> bool {
    s.len() > 0 && forall|i: int| 0 <= i < s.len() ==> 48 <= #[trigger] (s[i] as int) <= 57
}

/// The numeric value of a decimal digit string.
pub open spec fn dec_value(s: Seq<char>) -> int
    decreases s.len(),
{
    if s.len() == 0 {
        0
    } else {
        dec_value(s.drop_last()) * 10 + (s.last() as int - 48)
    }
}

pub proof fn lemma_dec_value_nonneg(s: Seq<char>)
    requires
        forall|i: int| 0 <= i < s.len() ==> 48 <= #[trigger] (s[i] as int) <= 57,
    ensures
        dec_value(s) >= 0,
    decreases s.len(),
{
    if s.len() > 0 {
        assert(forall|i: int|
            0 <= i < s.drop_last().len() ==> 48 <= #[trigger] (s.drop_last()[i] as int) <= 57);
        lemma_dec_value_nonneg(s.drop_last());
    }
}

pub proof fn lemma_dec_value_prefix(s: Seq<char>, i: int)
    requires
        0 <= i <= s.len(),
        forall|k: int| 0 <= k < s.len() ==> 48 <= #[trigger] (s[k] as int) <= 57,
    ensures
        dec_value(s.take(i)) <= dec_value(s),
    decreases s.len() - i,
{
    if i < s.len() {
        lemma_dec_value_prefix(s, i + 1);
        assert(s.take(i + 1).drop_last() =~= s.take(i));
        lemma_dec_value_nonneg(s.take(i));
        assert(dec_value(s.take(i + 1)) == dec_value(s.take(i)) * 10 + (s[i] as int - 48));
    } else {
        assert(s.take(i) =~= s);
    }
}

/// Reads a `u32` from a decimal digit string: `Some` exactly when the text
/// is all digits and the value fits.
pub fn parse_u32(s: &String) -> (r: Option<u32>)
    ensures
        match r {
            Some(n) => is_dec_digits(s@) && dec_value(s@) == n,
            None => !(is_dec_digits(s@) && dec_value(s@) <= u32::MAX),
        },
{
    let st = s.as_str();
    let len = st.unicode_len();
    if len == 0 {
        return None;
    }
    let mut n: u32 = 0;
    let mut i: usize = 0;
    while i < len
        invariant
            st@ == s@,
            i <= len,
            len == s@.len(),
            forall|k: int| 0 <= k < i ==> 48 <= #[trigger] (s@[k] as int) <= 57,
            n == dec_value(s@.take(i as int)),
        decreases len - i,
    {
        let c = st.get_char(i);
        let d = c as u32;
        if d < 48 || d > 57 {
            return None;
        }
        let d = d - 48;
        proof {
            assert(s@.take(i + 1).drop_last() =~= s@.take(i as int));
            assert(s@.take(i + 1).last() == s@[i as int]);
        }
        if n > (u32::MAX - d) / 10 {
            proof {
                assert(n * 10 + d > u32::MAX) by (nonlinear_arith)
                    requires
                        n > (u32::MAX - d) / 10,
                        d <= 9,
                ;
                if is_dec_digits(s@) {
                    lemma_dec_value_prefix(s@, i + 1);
                    assert(dec_value(s@.take(i + 1)) == n * 10 + d);
                }
            }
            return None;
        }
        proof {
            assert(n * 10 + d <= u32::MAX) by (nonlinear_arith)
                requires
                    n <= (u32::MAX - d) / 10,
                    d <= 9,
            ;
        }
        n = n * 10 + d;
        i = i + 1;
    }
    proof {
        assert(s@.take(len as int) =~= s@);
    }
    Some(n)
}

/// Descends into an expected parenthesized group.  Succeeds exactly when the
/// token at `i` is a paren-delimited group, yielding the nested tokens and
/// the position after the group.
pub fn skip_parenthesis<'a>(toks: &'a Vec<Token>, i: usize) -> (r: Result<
    (&'a Vec<Token>, usize),
    SparError,
>)
    ensures
        match r {
            Ok(p) => i < toks@.len() && tokens_model(toks@)[i as int] == TokenModel::Group(
                Delim::Paren,
                tokens_model(p.0@),
            ) && p.1 == i + 1,
            Err(_) => !(i < toks@.len() && tokens_model(toks@)[i as int] is Group && tokens_model(
                toks@,
            )[i as int]->Group_0 == Delim::Paren),
        },
{
    proof {
        lemma_tokens_model_len(toks@);
        if i < toks@.len() {
            lemma_tokens_model_index(toks@, i as int);
        }
    }
    if i >= toks.len() {
        return Err(SparError::new("expected arguments, in parenthesis, found nothing", i));
    }
    match &toks[i] {
        Token::Group(Delim::Paren, inner) => Ok((inner, i + 1)),
        _ => Err(SparError::new("expected arguments, in parenthesis", i)),
    }
}

/// The variable list that a `name : type` sequence denotes, or `None` where
/// the list is malformed.  Entries are separated by top-level commas; a
/// trailing comma is allowed; the type text may be empty.
pub open spec fn parse_vars(ts: Seq<TokenModel>) -> Option<Seq<VarModel>>
    decreases ts.len(),
    via parse_vars_dec
{
    if ts.len() == 0 {
        Some(Seq::empty())
    } else {
        match ts[0] {
            TokenModel::Ident(name) => {
                if ts.len() > 2 && ts[1] == TokenModel::Punct(':') {
                    let k = 2 + comma_index(ts.skip(2));
                    let v = VarModel { identifier: name, var_type: ts.subrange(2, k) };
                    if k == ts.len() {
                        Some(seq![v])
                    } else {
                        match parse_vars(ts.skip(k + 1)) {
                            Some(rest) => Some(seq![v] + rest),
                            None => None,
                        }
                    }
                } else {
                    None
                }
            },
            _ => None,
        }
    }
}

#[via_fn]
proof fn parse_vars_dec(ts: Seq<TokenModel>) {
    if ts.len() >= 2 {
        lemma_comma_index(ts.skip(2));
    }
}

/// Reads the parenthesized variable list at `i`: succeeds exactly when a
/// paren group stands there and its contents form a well-formed list.
pub fn get_variables<'a>(toks: &'a Vec<Token>, i: usize) -> (r: Result<
    (Vec<SparVar>, usize),
    SparError,
>)
    ensures
        match r {
            Ok(p) => {
                &&& i < toks@.len()
                &&& tokens_model(toks@)[i as int] is Group
                &&& tokens_model(toks@)[i as int]->Group_0 == Delim::Paren
                &&& parse_vars(tokens_model(toks@)[i as int]->Group_1) == Some(vars_model(p.0@))
                &&& p.1 == i + 1
            },
            Err(_) => !(i < toks@.len() && tokens_model(toks@)[i as int] is Group && tokens_model(
                toks@,
            )[i as int]->Group_0 == Delim::Paren && parse_vars(
                tokens_model(toks@)[i as int]->Group_1,
            ) is Some),
        },
{
    let (args, after) = match skip_parenthesis(toks, i) {
        Ok(p) => p,
        Err(e) => {
            return Err(e);
        },
    };
    let ghost m = tokens_model(args@);
    proof {
        lemma_tokens_model_len(args@);
    }
    let mut vars: Vec<SparVar> = Vec::new();
    let mut pos: usize = 0;
    proof {
        assert(m.skip(0) =~= m);
    }
    while pos < args.len()
        invariant
            pos <= args@.len(),
            m == tokens_model(args@),
            m.len() == args@.len(),
            i < toks@.len(),
            tokens_model(toks@)[i as int] == TokenModel::Group(Delim::Paren, m),
            after == i + 1,
            match parse_vars(m.skip(pos as int)) {
                Some(rest) => parse_vars(m) == Some(vars_model(vars@) + rest),
                None => parse_vars(m) is None,
            },
        decreases args@.len() - pos,
    {
        proof {
            lemma_tokens_model_index(args@, pos as int);
        }
        let ghost tail = m.skip(pos as int);
        match &args[pos] {
            Token::Ident(identifier) => {
                let next = match skip_punct(args, pos + 1, ':') {
                    Ok(j) => j,
                    Err(e) => {
                        proof {
                            if pos + 1 < m.len() {
                                lemma_tokens_model_index(args@, pos + 1);
                                assert(tail[1] == m[pos + 1]);
                            }
                            assert(parse_vars(tail) is None);
                        }
                        return Err(e);
                    },
                };
                let (var_type, tpos) = match get_type(args, next) {
                    Ok(p) => p,
                    Err(e) => {
                        // `next` is at or past the end: the guarded branch of
                        // the model also rejects this list.
                        proof {
                            assert(parse_vars(tail) is None);
                        }
                        return Err(e);
                    },
                };
                proof {
                    assert(m.skip(next as int) =~= tail.skip(2));
                    lemma_comma_index(tail.skip(2));
                    assert(tpos == next + comma_index(m.skip(next as int)));
                    assert(tail.subrange(2, 2 + comma_index(tail.skip(2))) =~= m.subrange(
                        next as int,
                        tpos as int,
                    ));
                }
                let ghost k = 2 + comma_index(tail.skip(2));
                let ghost v = VarModel {
                    identifier: identifier@,
                    var_type: tail.subrange(2, k),
                };
                let ghost prev_vars = vars@;
                vars.push(SparVar::new(identifier.clone(), VarType(var_type)));
                proof {
                    assert(vars_model(vars@) =~= vars_model(prev_vars).push(v));
                }
                match skip_punct(args, tpos, ',') {
                    Ok(j) => {
                        proof {
                            lemma_comma_index(tail.skip(2));
                            assert(pos + k < m.len());
                            assert(m.skip(j as int) =~= tail.skip(k + 1));
                            if parse_vars(tail.skip(k + 1)) is Some {
                                let rest = parse_vars(tail.skip(k + 1))->Some_0;
                                assert(parse_vars(tail) == Some(seq![v] + rest));
                                assert(vars_model(vars@) + rest =~= vars_model(prev_vars) + (
                                seq![v] + rest));
                            }
                        }
                        pos = j;
                    },
                    Err(e) => {
                        if tpos >= args.len() {
                            proof {
                                lemma_comma_index(tail.skip(2));
                                assert(k == tail.len());
                                assert(parse_vars(tail) == Some(seq![v]));
                                assert(vars_model(vars@) =~= vars_model(prev_vars) + seq![v]);
                                assert(m.skip(m.len() as int) =~= Seq::<TokenModel>::empty());
                            }
                            pos = args.len();
                        } else {
                            return Err(e);
                        }
                    },
                }
            },
            _ => {
                proof {
                    assert(parse_vars(tail) is None);
                }
                return Err(SparError::new("unexpected token in variable list", pos));
            },
        }
    }
    proof {
        assert(m.skip(pos as int) =~= Seq::<TokenModel>::empty());
        assert(vars_model(vars@) + Seq::<VarModel>::empty() =~= vars_model(vars@));
    }
    Ok((vars, after))
}

/// The replication policy that the tokens after `REPLICATE` denote: an `=`
/// followed by a name, or by a positive integer literal that fits in `u32`.
pub open spec fn replicate_after(ts: Seq<TokenModel>, i: int) -> Option<(ReplicateModel, int)> {
    if 0 <= i && i + 1 < ts.len() && ts[i] == TokenModel::Punct('=') {
        match ts[i + 1] {
            TokenModel::Ident(name) => Some((ReplicateModel::Var(name), i + 2)),
            TokenModel::Lit(text) => if is_dec_digits(text) && 0 < dec_value(text) && dec_value(
                text,
            ) <= u32::MAX {
                Some((ReplicateModel::Lit(dec_value(text) as u32), i + 2))
            } else {
                None
            },
            _ => None,
        }
    } else {
        None
    }
}

/// Reads the `= <count>` that follows a `REPLICATE` keyword.
pub fn parse_replicate(toks: &Vec<Token>, i: usize) -> (r: Result<(Replicate, usize), SparError>)
    ensures
        match r {
            Ok(p) => {
                &&& replicate_after(tokens_model(toks@), i as int) == Some((p.0@, p.1 as int))
                &&& p.1 == i + 2
            },
            Err(_) => replicate_after(tokens_model(toks@), i as int) is None,
        },
{
    proof {
        lemma_tokens_model_len(toks@);
        if i < toks@.len() {
            lemma_tokens_model_index(toks@, i as int);
        }
        if i + 1 < toks@.len() {
            lemma_tokens_model_index(toks@, i + 1);
        }
    }
    if i < toks.len() {
        let eq = match &toks[i] {
            Token::Punct(p) => *p == '=',
            _ => false,
        };
        if eq && i + 1 < toks.len() {
            match &toks[i + 1] {
                Token::Ident(name) => {
                    return Ok((Replicate::Var(name.clone()), i + 2));
                },
                Token::Lit(text) => {
                    match parse_u32(text) {
                        Some(n) => {
                            if n > 0 {
                                return Ok((Replicate::Lit(n), i + 2));
                            } else {
                                return Err(
                                    SparError::new("'REPLICATE' cannot have an argument of '0'", i),
                                );
                            }
                        },
                        None => {},
                    }
                },
                _ => {},
            }
        }
    }
    Err(
        SparError::new(
            "failed to parse REPLICATE attribute. Correct syntax is: 'REPLICATE = N', where N is either a number or an identifier",
            i,
        ),
    )
}

/// What reading the attribute list denotes, given the attributes read so
/// far: `INPUT(..)`, `OUTPUT(..)`, `REPLICATE = n` and `ORDERED`, each at
/// most once and each followed by a comma, terminated by the brace-delimited
/// body, after which only an optional comma is allowed.
pub open spec fn parse_args_loop(
    ts: Seq<TokenModel>,
    input: Seq<VarModel>,
    output: Seq<VarModel>,
    rep: ReplicateModel,
) -> Option<(AttrsModel, Seq<TokenModel>)>
    decreases ts.len(),
{
    if ts.len() == 0 {
        None
    } else {
        match ts[0] {
            TokenModel::Ident(kw) => {
                if kw == "INPUT"@ {
                    if input.len() > 0 {
                        None
                    } else if ts.len() >= 2 && ts[1] is Group && ts[1]->Group_0 == Delim::Paren {
                        match parse_vars(ts[1]->Group_1) {
                            Some(vars) => if vars.len() == 0 {
                                None
                            } else if ts.len() >= 3 && ts[2] == TokenModel::Punct(',') {
                                parse_args_loop(ts.skip(3), vars, output, rep)
                            } else {
                                None
                            },
                            None => None,
                        }
                    } else {
                        None
                    }
                } else if kw == "OUTPUT"@ {
                    if output.len() > 0 {
                        None
                    } else if ts.len() >= 2 && ts[1] is Group && ts[1]->Group_0 == Delim::Paren {
                        match parse_vars(ts[1]->Group_1) {
                            Some(vars) => if vars.len() == 0 {
                                None
                            } else if ts.len() >= 3 && ts[2] == TokenModel::Punct(',') {
                                parse_args_loop(ts.skip(3), input, vars, rep)
                            } else {
                                None
                            },
                            None => None,
                        }
                    } else {
                        None
                    }
                } else if kw == "REPLICATE"@ {
                    if !(rep is SeqUnordered) {
                        None
                    } else {
                        match replicate_after(ts, 1) {
                            Some(p) => if p.1 < ts.len() && ts[p.1] == TokenModel::Punct(',') {
                                parse_args_loop(ts.skip(p.1 + 1), input, output, p.0)
                            } else {
                                None
                            },
                            None => None,
                        }
                    }
                } else if kw == "ORDERED"@ {
                    if !(rep is SeqUnordered) {
                        None
                    } else if ts.len() >= 2 && ts[1] == TokenModel::Punct(',') {
                        parse_args_loop(ts.skip(2), input, output, ReplicateModel::SeqOrdered)
                    } else {
                        None
                    }
                } else {
                    None
                }
            },
            TokenModel::Group(d, body) => {
                if d == Delim::Brace {
                    if ts.len() == 1 || ts[1] == TokenModel::Punct(',') {
                        Some((AttrsModel { input, output, replicate: rep }, body))
                    } else {
                        None
                    }
                } else {
                    None
                }
            },
            _ => None,
        }
    }
}

/// What an attribute list (the contents of the paren group after `STAGE`, or
/// the whole wrapped stream input) denotes.
pub open spec fn parse_args(ts: Seq<TokenModel>) -> Option<(AttrsModel, Seq<TokenModel>)> {
    parse_args_loop(ts, Seq::empty(), Seq::empty(), ReplicateModel::SeqUnordered)
}

/// What the parenthesized attribute list standing at position `i` denotes.
pub open spec fn args_at(ts: Seq<TokenModel>, i: int) -> Option<(AttrsModel, Seq<TokenModel>)> {
    if 0 <= i < ts.len() && ts[i] is Group && ts[i]->Group_0 == Delim::Paren {
        parse_args(ts[i]->Group_1)
    } else {
        None
    }
}

/// Reads a parenthesized attribute list and its body block: yields the
/// attributes, the position after the paren group, and the body tokens.
pub fn parse_spar_args(toks: &Vec<Token>, i: usize) -> (r: Result<
    (SparAttrs, usize, Vec<Token>),
    SparError,
>)
    ensures
        match r {
            Ok(p) => args_at(tokens_model(toks@), i as int) == Some((p.0@, tokens_model(p.2@)))
                && p.1 == i + 1,
            Err(_) => args_at(tokens_model(toks@), i as int) is None,
        },
{
    proof {
        lemma_tokens_model_len(toks@);
    }
    let (args, after) = match skip_parenthesis(toks, i) {
        Ok(p) => p,
        Err(e) => {
            return Err(e);
        },
    };
    match parse_attr_list(args) {
        Ok(p) => Ok((p.0, after, p.1)),
        Err(e) => Err(e),
    }
}

/// Reads an attribute list and its body block from an unwrapped token
/// sequence: the whole stream description has this very shape.
pub fn parse_attr_list(args: &Vec<Token>) -> (r: Result<(SparAttrs, Vec<Token>), SparError>)
    ensures
        match r {
            Ok(p) => parse_args(tokens_model(args@)) == Some((p.0@, tokens_model(p.1@))),
            Err(_) => parse_args(tokens_model(args@)) is None,
        },
{
    let ghost m = tokens_model(args@);
    proof {
        lemma_tokens_model_len(args@);
        assert(m.skip(0) =~= m);
    }
    let mut input: Vec<SparVar> = Vec::new();
    let mut output: Vec<SparVar> = Vec::new();
    let mut replicate = Replicate::SeqUnordered;
    let mut pos: usize = 0;
    proof {
        assert(vars_model(input@) =~= Seq::<VarModel>::empty());
        assert(vars_model(output@) =~= Seq::<VarModel>::empty());
    }
    while pos < args.len()
        invariant
            pos <= args@.len(),
            m == tokens_model(args@),
            m.len() == args@.len(),
            parse_args(m) == parse_args_loop(
                m.skip(pos as int),
                vars_model(input@),
                vars_model(output@),
                replicate@,
            ),
            vars_model(input@).len() == input@.len(),
            vars_model(output@).len() == output@.len(),
        decreases args@.len() - pos,
    {
        proof {
            lemma_tokens_model_index(args@, pos as int);
        }
        let ghost tail = m.skip(pos as int);
        match &args[pos] {
            Token::Ident(kw) => {
                if str_is(kw, "INPUT") || str_is(kw, "OUTPUT") {
                    let reading_input = str_is(kw, "INPUT");
                    if reading_input && input.len() > 0 {
                        return Err(SparError::new("multiple INPUTs aren't allowed", pos));
                    }
                    if !reading_input && output.len() > 0 {
                        return Err(SparError::new("multiple OUTPUTs aren't allowed", pos));
                    }
                    let (vars, next) = match get_variables(args, pos + 1) {
                        Ok(p) => p,
                        Err(e) => {
                            proof {
                                if pos + 1 < m.len() {
                                    lemma_tokens_model_index(args@, pos + 1);
                                    assert(tail[1] == m[pos + 1]);
                                }
                                assert(parse_args_loop(
                                    tail,
                                    vars_model(input@),
                                    vars_model(output@),
                                    replicate@,
                                ) is None);
                            }
                            return Err(e);
                        },
                    };
                    proof {
                        lemma_tokens_model_index(args@, pos + 1);
                        assert(tail[1] == m[pos + 1]);
                    }
                    if vars.len() == 0 {
                        if reading_input {
                            return Err(SparError::new("INPUT cannot be empty", pos));
                        }
                        return Err(SparError::new("OUTPUT cannot be empty", pos));
                    }
                    let next = match skip_punct(args, next, ',') {
                        Ok(j) => j,
                        Err(e) => {
                            proof {
                                if pos + 2 < m.len() {
                                    lemma_tokens_model_index(args@, pos + 2);
                                    assert(tail[2] == m[pos + 2]);
                                }
                            }
                            return Err(e);
                        },
                    };
                    proof {
                        lemma_tokens_model_index(args@, pos + 2);
                        assert(tail[2] == m[pos + 2]);
                        assert(m.skip(next as int) =~= tail.skip(3));
                    }
                    if reading_input {
                        input = vars;
                    } else {
                        output = vars;
                    }
                    pos = next;
                } else if str_is(kw, "REPLICATE") {
                    if !matches!(replicate, Replicate::SeqUnordered) {
                        return Err(SparError::new("multiple REPLICATEs aren't allowed", pos));
                    }
                    let (rep, next) = match parse_replicate(args, pos + 1) {
                        Ok(p) => p,
                        Err(e) => {
                            proof {
                                lemma_replicate_after_shift(m, pos as int);
                            }
                            return Err(e);
                        },
                    };
                    proof {
                        lemma_replicate_after_shift(m, pos as int);
                    }
                    let next = match skip_punct(args, next, ',') {
                        Ok(j) => j,
                        Err(e) => {
                            proof {
                                if pos + 3 < m.len() {
                                    lemma_tokens_model_index(args@, pos + 3);
                                    assert(tail[3] == m[pos + 3]);
                                }
                            }
                            return Err(e);
                        },
                    };
                    proof {
                        lemma_tokens_model_index(args@, pos + 3);
                        assert(tail[3] == m[pos + 3]);
                        assert(m.skip(next as int) =~= tail.skip(4));
                    }
                    replicate = rep;
                    pos = next;
                } else if str_is(kw, "ORDERED") {
                    if !matches!(replicate, Replicate::SeqUnordered) {
                        return Err(
                            SparError::new("only one of REPLICATE or ORDERED can be specified", pos),
                        );
                    }
                    let next = match skip_punct(args, pos + 1, ',') {
                        Ok(j) => j,
                        Err(e) => {
                            proof {
                                if pos + 1 < m.len() {
                                    lemma_tokens_model_index(args@, pos + 1);
                                    assert(tail[1] == m[pos + 1]);
                                }
                            }
                            return Err(e);
                        },
                    };
                    proof {
                        lemma_tokens_model_index(args@, pos + 1);
                        assert(tail[1] == m[pos + 1]);
                        assert(m.skip(next as int) =~= tail.skip(2));
                    }
                    replicate = Replicate::SeqOrdered;
                    pos = next;
                } else {
                    return Err(
                        SparError::new(
                            "unexpected token. Valid tokens are 'INPUT(args)', 'OUTPUT(args)', 'REPLICATE = N' and a code block",
                            pos,
                        ),
                    );
                }
            },
            Token::Group(Delim::Brace, body) => {
                if pos + 1 < args.len() {
                    proof {
                        lemma_tokens_model_index(args@, pos + 1);
                        assert(tail[1] == m[pos + 1]);
                    }
                    match skip_punct(args, pos + 1, ',') {
                        Ok(_) => {},
                        Err(_) => {
                            return Err(SparError::new("unexpected token after code block", pos + 1));
                        },
                    }
                }
                let body_toks = clone_tokens(body);
                proof {
                    assert(tail[0] == m[pos as int]);
                    assert(m[pos as int] == TokenModel::Group(Delim::Brace, tokens_model(body@)));
                    assert(parse_args_loop(
                        tail,
                        vars_model(input@),
                        vars_model(output@),
                        replicate@,
                    ) == Some(
                        (
                            AttrsModel {
                                input: vars_model(input@),
                                output: vars_model(output@),
                                replicate: replicate@,
                            },
                            tokens_model(body@),
                        ),
                    ));
                }
                return Ok((SparAttrs::new(input, output, replicate), body_toks));
            },
            _ => {
                return Err(
                    SparError::new(
                        "unexpected token. Valid tokens are 'INPUT(args)', 'OUTPUT(args)', 'REPLICATE = N' and a code block",
                        pos,
                    ),
                );
            },
        }
    }
    Err(SparError::new("expected a brace-delimited code block", pos))
}

/// The marker spliced into the driver code where the first stage stood; the
/// code generator later replaces it by the pipeline submission call.
pub open spec fn marker_model() -> TokenModel {
    TokenModel::Ident("__SPAR_MARKER__"@)
}

/// The result of scanning for the stage keyword: either the scanned tokens
/// hold no stage anywhere under nested braces, or the first stage was found,
/// leaving the driver code seen before it (with the splice marker where the
/// keyword stood, if any code was seen) and the still-unread tokens from the
/// keyword on, at the nesting level where it stood.
pub enum ScanModel {
    NoStage,
    Found { driver: Seq<TokenModel>, rest: Seq<TokenModel> },
}

/// Scans for the stage keyword, descending into brace-delimited groups
/// only.  `code_before` says whether any driver code was already seen.
/// When no stage is found the driver code is the scanned input itself.
pub open spec fn scan(ts: Seq<TokenModel>, code_before: bool) -> ScanModel
    decreases ts,
{
    if ts.len() == 0 {
        ScanModel::NoStage
    } else {
        let step = match scan(ts.skip(1), true) {
            ScanModel::NoStage => ScanModel::NoStage,
            ScanModel::Found { driver, rest } => ScanModel::Found {
                driver: seq![ts[0]] + driver,
                rest,
            },
        };
        match ts[0] {
            TokenModel::Ident(name) => if name == "STAGE"@ {
                ScanModel::Found {
                    driver: if code_before {
                        seq![marker_model()]
                    } else {
                        Seq::empty()
                    },
                    rest: ts,
                }
            } else {
                step
            },
            TokenModel::Group(d, inner) => if d == Delim::Brace {
                match scan(inner, code_before) {
                    ScanModel::Found { driver, rest } => ScanModel::Found {
                        driver: seq![TokenModel::Group(Delim::Brace, driver)],
                        rest,
                    },
                    ScanModel::NoStage => step,
                }
            } else {
                step
            },
            _ => step,
        }
    }
}

/// The attributes and body of one declared stage.
#[verifier::ext_equal]
pub struct StagePartModel {
    pub attrs: AttrsModel,
    pub code: Seq<TokenModel>,
}

/// What the flat list of stage declarations denotes: `STAGE (attrs body) ;`
/// repeated to the end of the input, and nothing else.
pub open spec fn parse_stage_list(ts: Seq<TokenModel>) -> Option<Seq<StagePartModel>>
    decreases ts.len(),
{
    if ts.len() == 0 {
        Some(Seq::empty())
    } else if ts[0] == TokenModel::Ident("STAGE"@) {
        match args_at(ts, 1) {
            Some(p) => if ts.len() >= 3 && ts[2] == TokenModel::Punct(';') {
                match parse_stage_list(ts.skip(3)) {
                    Some(rest) => Some(seq![StagePartModel { attrs: p.0, code: p.1 }] + rest),
                    None => None,
                }
            } else {
                None
            },
            None => None,
        }
    } else {
        None
    }
}

/// What splitting a description block denotes: the declared stages in order
/// and the driver code, or nothing where the block is malformed.
pub open spec fn split_stages(ts: Seq<TokenModel>) -> Option<
    (Seq<StagePartModel>, Seq<TokenModel>),
> {
    match scan(ts, false) {
        ScanModel::NoStage => Some((Seq::empty(), ts)),
        ScanModel::Found { driver, rest } => match parse_stage_list(rest) {
            Some(stages) => Some((stages, driver)),
            None => None,
        },
    }
}

/// The attributes and body of each stage in a list.
pub open spec fn stage_parts(ss: Seq<SparStage>) -> Seq<StagePartModel> {
    Seq::new(ss.len(), |k: int| StagePartModel { attrs: ss[k]@.attrs, code: ss[k]@.code })
}

/// The walker's result while looking for the stage keyword: the driver code
/// built so far, and for a found stage a cursor to the unread tokens.
enum ScanExec<'a> {
    NoStage(Vec<Token>),
    Found { driver: Vec<Token>, toks: &'a Vec<Token>, pos: usize },
}

fn scan_exec<'a>(toks: &'a Vec<Token>, i: usize, cb: bool) -> (r: ScanExec<'a>)
    requires
        i <= toks@.len(),
    ensures
        match r {
            ScanExec::NoStage(driver) => scan(tokens_model(toks@).skip(i as int), cb)
                is NoStage && tokens_model(driver@) == tokens_model(toks@).skip(i as int),
            ScanExec::Found { driver, toks: rt, pos } => {
                &&& pos <= rt@.len()
                &&& tokens_model(rt@).len() == rt@.len()
                &&& scan(tokens_model(toks@).skip(i as int), cb) == (ScanModel::Found {
                    driver: tokens_model(driver@),
                    rest: tokens_model(rt@).skip(pos as int),
                })
            },
        },
    decreases toks@, toks@.len() - i,
{
    let ghost m = tokens_model(toks@);
    let ghost ts = m.skip(i as int);
    proof {
        lemma_tokens_model_len(toks@);
    }
    if i >= toks.len() {
        let driver: Vec<Token> = Vec::new();
        proof {
            assert(tokens_model(driver@) =~= ts);
        }
        return ScanExec::NoStage(driver);
    }
    proof {
        lemma_tokens_model_index(toks@, i as int);
        assert(ts[0] == m[i as int]);
    }
    let is_stage = match &toks[i] {
        Token::Ident(name) => str_is(name, "STAGE"),
        _ => false,
    };
    if is_stage {
        let mut driver: Vec<Token> = Vec::new();
        if cb {
            driver.push(Token::Ident("__SPAR_MARKER__".to_owned()));
            proof {
                lemma_tokens_model_len(driver@);
                lemma_tokens_model_index(driver@, 0);
                assert(tokens_model(driver@) =~= seq![marker_model()]);
            }
        } else {
            proof {
                assert(tokens_model(driver@) =~= Seq::<TokenModel>::empty());
            }
        }
        return ScanExec::Found { driver, toks, pos: i };
    }
    match &toks[i] {
        Token::Group(Delim::Brace, inner) => {
            proof {
                assert(decreases_to!(toks@ => toks@[i as int]));
                assert(decreases_to!(toks@[i as int] => inner@));
            }
            match scan_exec(inner, 0, cb) {
                ScanExec::Found { driver: d, toks: rt, pos } => {
                    let ghost dm = tokens_model(d@);
                    let mut driver: Vec<Token> = Vec::new();
                    driver.push(Token::Group(Delim::Brace, d));
                    proof {
                        assert(tokens_model(inner@).skip(0) =~= tokens_model(inner@));
                        lemma_tokens_model_len(driver@);
                        lemma_tokens_model_index(driver@, 0);
                        assert(tokens_model(driver@) =~= seq![
                            TokenModel::Group(Delim::Brace, dm),
                        ]);
                    }
                    return ScanExec::Found { driver, toks: rt, pos };
                },
                ScanExec::NoStage(_) => {
                    proof {
                        assert(tokens_model(inner@).skip(0) =~= tokens_model(inner@));
                    }
                },
            }
        },
        _ => {},
    }
    // an ordinary token at this level: it joins the driver code, and from
    // here on some code has certainly been seen
    let ghost tail = m.skip(i + 1);
    proof {
        assert(ts.skip(1) =~= tail);
    }
    match scan_exec(toks, i + 1, true) {
        ScanExec::NoStage(rest) => {
            let mut driver: Vec<Token> = Vec::new();
            driver.push(crate::tokens::clone_token(&toks[i]));
            let mut rest = rest;
            let ghost rest_s = rest@;
            driver.append(&mut rest);
            proof {
                lemma_tokens_model_len(driver@);
                lemma_tokens_model_len(rest_s);
                assert forall|k: int|
                    0 <= k < driver@.len() implies tokens_model(driver@)[k] == ts[k] by {
                    lemma_tokens_model_index(driver@, k);
                    if k > 0 {
                        assert(driver@[k] == rest_s[k - 1]);
                        lemma_tokens_model_index(rest_s, k - 1);
                        assert(tokens_model(rest_s)[k - 1] == ts.skip(1)[k - 1]);
                    }
                }
                assert(tokens_model(driver@) =~= ts);
            }
            ScanExec::NoStage(driver)
        },
        ScanExec::Found { driver: d, toks: rt, pos } => {
            let mut driver: Vec<Token> = Vec::new();
            driver.push(crate::tokens::clone_token(&toks[i]));
            let mut d = d;
            let ghost dm = tokens_model(d@);
            let ghost d_s = d@;
            driver.append(&mut d);
            proof {
                lemma_tokens_model_len(driver@);
                lemma_tokens_model_len(d_s);
                assert forall|k: int|
                    0 <= k < driver@.len() implies tokens_model(driver@)[k] == (seq![ts[0]]
                        + dm)[k] by {
                    lemma_tokens_model_index(driver@, k);
                    if k > 0 {
                        assert(driver@[k] == d_s[k - 1]);
                        lemma_tokens_model_index(d_s, k - 1);
                    }
                }
                assert(tokens_model(driver@) =~= seq![ts[0]] + dm);
            }
            ScanExec::Found { driver, toks: rt, pos }
        },
    }
}

/// Splits a description block into its driver code — with the splice marker
/// where the first stage stood — and the ordered list of declared stages.
/// Stage `k` (counting from zero) receives the id `k + 1`; ids and `state`
/// fields are the only parts of the result that the split itself fixes.
pub fn parse_spar_stages(toks: &Vec<Token>) -> (r: Result<(Vec<SparStage>, Vec<Token>), SparError>)
    ensures
        match r {
            Ok(p) => {
                &&& split_stages(tokens_model(toks@)) == Some(
                    (stage_parts(p.0@), tokens_model(p.1@)),
                )
                &&& forall|k: int|
                    0 <= k < p.0@.len() ==> (#[trigger] stages_model(p.0@)[k]).state
                        == Seq::<VarModel>::empty() && stages_model(p.0@)[k].id == k + 1
            },
            Err(_) => split_stages(tokens_model(toks@)) is None,
        },
{
    let ghost m = tokens_model(toks@);
    proof {
        lemma_tokens_model_len(toks@);
        assert(m.skip(0) =~= m);
    }
    match scan_exec(toks, 0, false) {
        ScanExec::NoStage(driver) => {
            let stages: Vec<SparStage> = Vec::new();
            proof {
                assert(stage_parts(stages@) =~= Seq::<StagePartModel>::empty());
            }
            Ok((stages, driver))
        },
        ScanExec::Found { driver, toks: rt, pos } => {
            let ghost rm = tokens_model(rt@);
            let ghost dm = tokens_model(driver@);
            let ghost start = pos as int;
            let mut stages: Vec<SparStage> = Vec::new();
            let mut p = pos;
            proof {
                assert(stage_parts(stages@) =~= Seq::<StagePartModel>::empty());
                assert(stage_parts(stages@) + Seq::<StagePartModel>::empty() =~= stage_parts(
                    stages@,
                ));
            }
            while p < rt.len()
        invariant
            0 <= start <= p <= rt@.len(),
            rm == tokens_model(rt@),
            rm.len() == rt@.len(),
            scan(m, false) == (ScanModel::Found { driver: dm, rest: rm.skip(start) }),
            m == tokens_model(toks@),
            dm == tokens_model(driver@),
            match parse_stage_list(rm.skip(p as int)) {
                Some(rest) => parse_stage_list(rm.skip(start)) == Some(
                    stage_parts(stages@) + rest,
                ),
                None => parse_stage_list(rm.skip(start)) is None,
            },
            3 * stages@.len() <= p - start,
            forall|k: int|
                0 <= k < stages@.len() ==> (#[trigger] stages_model(stages@)[k]).state
                    == Seq::<VarModel>::empty() && stages_model(stages@)[k].id == k + 1,
        decreases rt@.len() - p,
            {
                proof {
                    lemma_tokens_model_index(rt@, p as int);
                }
                let ghost tail = rm.skip(p as int);
                let is_stage = match &rt[p] {
                    Token::Ident(name) => str_is(name, "STAGE"),
                    _ => false,
                };
                if !is_stage {
                    proof {
                        assert(parse_stage_list(tail) is None);
                    }
                    return Err(SparError::new("expected 'STAGE' or end of stream", p));
                }
                let (attrs, after, code) = match parse_spar_args(rt, p + 1) {
                    Ok(q) => q,
                    Err(e) => {
                        proof {
                            if p + 1 < rm.len() {
                                lemma_tokens_model_index(rt@, p + 1);
                                assert(tail[1] == rm[p + 1]);
                            }
                            assert(args_at(tail, 1) == args_at(rm, p + 1));
                            assert(parse_stage_list(tail) is None);
                        }
                        return Err(e);
                    },
                };
                proof {
                    lemma_tokens_model_index(rt@, p + 1);
                    assert(tail[1] == rm[p + 1]);
                    assert(args_at(tail, 1) == args_at(rm, p + 1));
                }
                let after = match skip_punct(rt, after, ';') {
                    Ok(j) => j,
                    Err(e) => {
                        proof {
                            if p + 2 < rm.len() {
                                lemma_tokens_model_index(rt@, p + 2);
                                assert(tail[2] == rm[p + 2]);
                            }
                            assert(parse_stage_list(tail) is None);
                        }
                        return Err(e);
                    },
                };
                proof {
                    lemma_tokens_model_index(rt@, p + 2);
                    assert(tail[2] == rm[p + 2]);
                    assert(rm.skip(after as int) =~= tail.skip(3));
                }
                proof {
                    assert(3 * stages@.len() <= p - start);
                    assert(stages@.len() < usize::MAX) by (nonlinear_arith)
                        requires
                            3 * stages@.len() <= p - start,
                            0 <= start <= p,
                            p <= usize::MAX,
                    ;
                }
                let id = stages.len() + 1;
                let ghost prev = stages@;
                stages.push(SparStage::new(attrs, code, id));
                proof {
                    assert(stage_parts(stages@) =~= stage_parts(prev).push(
                        StagePartModel { attrs: attrs@, code: stages@.last()@.code },
                    ));
                    if parse_stage_list(tail.skip(3)) is Some {
                        let rest = parse_stage_list(tail.skip(3))->Some_0;
                        assert(parse_stage_list(tail) == Some(
                            seq![StagePartModel { attrs: attrs@, code: stages@.last()@.code }]
                                + rest,
                        ));
                        assert(stage_parts(stages@) + rest =~= stage_parts(prev) + (seq![
                            StagePartModel { attrs: attrs@, code: stages@.last()@.code },
                        ] + rest));
                    }
                    assert forall|k: int|
                        0 <= k < stages@.len() implies (#[trigger] stages_model(stages@)[k]).state
                        == Seq::<VarModel>::empty() && stages_model(stages@)[k].id == k + 1 by {
                        if k < prev.len() {
                            assert(stages_model(prev)[k] == stages_model(stages@)[k]);
                        }
                    }
                }
                p = after;
            }
            proof {
                assert(rm.skip(p as int) =~= Seq::<TokenModel>::empty());
                assert(stage_parts(stages@) + Seq::<StagePartModel>::empty() =~= stage_parts(
                    stages@,
                ));
            }
            Ok((stages, driver))
        },
    }
}

/// The replicate reading is insensitive to where in the sequence it starts.
proof fn lemma_replicate_after_shift(m: Seq<TokenModel>, pos: int)
    requires
        0 <= pos < m.len(),
    ensures
        replicate_after(m.skip(pos), 1) == (match replicate_after(m, pos + 1) {
            Some(p) => Some((p.0, p.1 - pos)),
            None => None,
        }),
{
    let tail = m.skip(pos);
    if 1 + 1 < tail.len() {
        assert(tail[1] == m[pos + 1]);
        assert(tail[2] == m[pos + 2]);
    }
}

} // verus!
