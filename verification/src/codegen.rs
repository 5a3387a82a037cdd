//! The code generator: from a resolved stream to the token sequence of the
//! wiring code for the `rust_spp` staged-pipeline runtime.
//!
//! Every emitting function is specified against a model function that
//! states the emitted token sequence exactly.

use vstd::prelude::*;
use vstd::string::StringExecFns;

use crate::parse::{dec_value, is_dec_digits, parse_u32, SparError};
use crate::spar_stream::{
    stages_model, vars_model, ReplicateModel, SparStage, SparStream, SparVar, StageModel,
    StreamModel, VarModel,
};
use crate::tokens::{
    lemma_tokens_model_concat, lemma_tokens_model_index, lemma_tokens_model_len,
    lemma_tokens_model_push, tokens_model, Delim, Token, TokenModel,
};

verus! {

/// The decimal digit character for a value between 0 and 9.
pub open spec fn dec_digit(d: int) -> char {
    if d == 0 {
        '0'
    } else if d == 1 {
        '1'
    } else if d == 2 {
        '2'
    } else if d == 3 {
        '3'
    } else if d == 4 {
        '4'
    } else if d == 5 {
        '5'
    } else if d == 6 {
        '6'
    } else if d == 7 {
        '7'
    } else if d == 8 {
        '8'
    } else {
        '9'
    }
}

/// The decimal rendering of a non-negative number.
pub open spec fn dec_str(n: int) -> Seq<char>
    decreases n,
{
    if n <= 9 {
        seq![dec_digit(n)]
    } else {
        dec_str(n / 10).push(dec_digit(n % 10))
    }
}

/// The text of one decimal digit.
fn digit_str(d: usize) -> (r: &'static str)
    requires
        d <= 9,
    ensures
        r@ == seq![dec_digit(d as int)],
{
    proof {
        reveal_strlit("0");
        reveal_strlit("1");
        reveal_strlit("2");
        reveal_strlit("3");
        reveal_strlit("4");
        reveal_strlit("5");
        reveal_strlit("6");
        reveal_strlit("7");
        reveal_strlit("8");
        reveal_strlit("9");
    }
    let r = match d {
        0 => "0",
        1 => "1",
        2 => "2",
        3 => "3",
        4 => "4",
        5 => "5",
        6 => "6",
        7 => "7",
        8 => "8",
        _ => "9",
    };
    proof {
        assert(r@ =~= seq![dec_digit(d as int)]);
    }
    r
}

/// The decimal rendering of a number, as a string.
pub fn usize_to_string(n: usize) -> (r: String)
    ensures
        r@ == dec_str(n as int),
    decreases n,
{
    if n <= 9 {
        digit_str(n).to_owned()
    } else {
        let mut s = usize_to_string(n / 10);
        s.append(digit_str(n % 10));
        proof {
            assert(s@ =~= dec_str(n as int));
        }
        s
    }
}

/// Appends one identifier token.
fn push_ident(v: &mut Vec<Token>, s: &str)
    ensures
        tokens_model(final(v)@) == tokens_model(old(v)@).push(TokenModel::Ident(s@)),
{
    let ghost prev = v@;
    v.push(Token::Ident(s.to_owned()));
    proof {
        lemma_tokens_model_push(prev, v@.last());
        assert(v@ =~= prev.push(v@.last()));
    }
}

/// Appends one identifier token holding an owned name.
fn push_ident_string(v: &mut Vec<Token>, s: String)
    ensures
        tokens_model(final(v)@) == tokens_model(old(v)@).push(TokenModel::Ident(s@)),
{
    let ghost prev = v@;
    v.push(Token::Ident(s));
    proof {
        lemma_tokens_model_push(prev, v@.last());
        assert(v@ =~= prev.push(v@.last()));
    }
}

/// Appends one punctuation token.
fn push_punct(v: &mut Vec<Token>, c: char)
    ensures
        tokens_model(final(v)@) == tokens_model(old(v)@).push(TokenModel::Punct(c)),
{
    let ghost prev = v@;
    v.push(Token::Punct(c));
    proof {
        lemma_tokens_model_push(prev, v@.last());
        assert(v@ =~= prev.push(v@.last()));
    }
}

/// Appends one literal token holding an owned text.
fn push_lit_string(v: &mut Vec<Token>, s: String)
    ensures
        tokens_model(final(v)@) == tokens_model(old(v)@).push(TokenModel::Lit(s@)),
{
    let ghost prev = v@;
    v.push(Token::Lit(s));
    proof {
        lemma_tokens_model_push(prev, v@.last());
        assert(v@ =~= prev.push(v@.last()));
    }
}

/// Appends one delimited group built from the given tokens.
fn push_group(v: &mut Vec<Token>, d: Delim, inner: Vec<Token>)
    ensures
        tokens_model(final(v)@) == tokens_model(old(v)@).push(
            TokenModel::Group(d, tokens_model(inner@)),
        ),
{
    let ghost prev = v@;
    let ghost im = tokens_model(inner@);
    v.push(Token::Group(d, inner));
    proof {
        lemma_tokens_model_push(prev, v@.last());
        assert(v@ =~= prev.push(v@.last()));
    }
}

/// Appends a whole token sequence.
fn push_tokens(v: &mut Vec<Token>, other: Vec<Token>)
    ensures
        tokens_model(final(v)@) == tokens_model(old(v)@) + tokens_model(other@),
{
    let ghost prev = v@;
    let ghost om = other@;
    let mut other = other;
    v.append(&mut other);
    proof {
        lemma_tokens_model_concat(prev, om);
        assert(v@ =~= prev + om);
    }
}

/// The checked worker-count override: a positive decimal integer that fits
/// in `u32`; anything else is ignored by the caller with a warning.
pub open spec fn num_workers_model(s: Seq<char>) -> Option<u32> {
    if is_dec_digits(s) && 0 < dec_value(s) && dec_value(s) <= u32::MAX {
        Some(dec_value(s) as u32)
    } else {
        None
    }
}

/// Validates the worker-count override that the environment hands in.
/// `None` means the value is invalid and the caller falls back to each
/// stage's own literal count, after reporting a warning.
pub fn parse_num_workers(value: &String) -> (r: Option<u32>)
    ensures
        r == num_workers_model(value@),
{
    match parse_u32(value) {
        Some(n) => if n > 0 {
            Some(n)
        } else {
            None
        },
        None => None,
    }
}

/// The worker count that a fixed-count stage runs with: a valid override
/// replaces the declared literal; a named count is never overridden.
pub open spec fn replicate_count(n: u32, workers: Option<u32>) -> u32 {
    match workers {
        Some(w) => w,
        None => n,
    }
}

/// The emitted replica-count expression.  A named count becomes `name as
/// i32`; a fixed count becomes its resolved literal `as i32`; a sequential
/// policy counts as one replica.
pub open spec fn gen_replicate_model(rep: ReplicateModel, workers: Option<u32>) -> Seq<
    TokenModel,
> {
    match rep {
        ReplicateModel::Var(name) => seq![
            TokenModel::Ident(name),
            TokenModel::Ident("as"@),
            TokenModel::Ident("i32"@),
        ],
        ReplicateModel::Lit(n) => seq![
            TokenModel::Lit(dec_str(replicate_count(n, workers) as int)),
            TokenModel::Ident("as"@),
            TokenModel::Ident("i32"@),
        ],
        _ => seq![TokenModel::Lit(dec_str(1))],
    }
}

/// Emits the replica-count expression of one stage.
pub fn gen_replicate(replicate: &crate::spar_stream::Replicate, workers: Option<u32>) -> (r: Vec<
    Token,
>)
    ensures
        tokens_model(r@) == gen_replicate_model(replicate@, workers),
{
    let mut out: Vec<Token> = Vec::new();
    proof {
        assert(tokens_model(out@) =~= Seq::<TokenModel>::empty());
    }
    match replicate {
        crate::spar_stream::Replicate::Var(name) => {
            push_ident_string(&mut out, name.clone());
            push_ident(&mut out, "as");
            push_ident(&mut out, "i32");
            proof {
                assert(tokens_model(out@) =~= gen_replicate_model(replicate@, workers));
            }
        },
        crate::spar_stream::Replicate::Lit(n) => {
            let count = match workers {
                Some(w) => w,
                None => *n,
            };
            push_lit_string(&mut out, usize_to_string(count as usize));
            push_ident(&mut out, "as");
            push_ident(&mut out, "i32");
            proof {
                assert(tokens_model(out@) =~= gen_replicate_model(replicate@, workers));
            }
        },
        _ => {
            push_lit_string(&mut out, usize_to_string(1));
            proof {
                assert(tokens_model(out@) =~= gen_replicate_model(replicate@, workers));
            }
        },
    }
    out
}

/// One struct field or parameter: `name : type`.
pub open spec fn var_field(v: VarModel) -> Seq<TokenModel> {
    seq![TokenModel::Ident(v.identifier), TokenModel::Punct(':')] + v.var_type
}

/// A comma-separated list of `name : type` entries.
pub open spec fn fields_join(vars: Seq<VarModel>) -> Seq<TokenModel>
    decreases vars.len(),
{
    if vars.len() == 0 {
        Seq::empty()
    } else if vars.len() == 1 {
        var_field(vars[0])
    } else {
        fields_join(vars.drop_last()) + seq![TokenModel::Punct(',')] + var_field(vars.last())
    }
}

/// A comma-separated list of the variables' names.
pub open spec fn idents_join(vars: Seq<VarModel>) -> Seq<TokenModel>
    decreases vars.len(),
{
    if vars.len() == 0 {
        Seq::empty()
    } else if vars.len() == 1 {
        seq![TokenModel::Ident(vars[0].identifier)]
    } else {
        idents_join(vars.drop_last()) + seq![
            TokenModel::Punct(','),
            TokenModel::Ident(vars.last().identifier),
        ]
    }
}

/// A comma-separated list of `mut name` entries.
pub open spec fn mut_idents_join(vars: Seq<VarModel>) -> Seq<TokenModel>
    decreases vars.len(),
{
    if vars.len() == 0 {
        Seq::empty()
    } else if vars.len() == 1 {
        seq![TokenModel::Ident("mut"@), TokenModel::Ident(vars[0].identifier)]
    } else {
        mut_idents_join(vars.drop_last()) + seq![
            TokenModel::Punct(','),
            TokenModel::Ident("mut"@),
            TokenModel::Ident(vars.last().identifier),
        ]
    }
}

/// A comma-separated list of the variables' types.
pub open spec fn types_join(vars: Seq<VarModel>) -> Seq<TokenModel>
    decreases vars.len(),
{
    if vars.len() == 0 {
        Seq::empty()
    } else if vars.len() == 1 {
        vars[0].var_type
    } else {
        types_join(vars.drop_last()) + seq![TokenModel::Punct(',')] + vars.last().var_type
    }
}

/// A comma-separated list of `name.clone()` calls.
pub open spec fn clone_args_join(vars: Seq<VarModel>) -> Seq<TokenModel>
    decreases vars.len(),
{
    if vars.len() == 0 {
        Seq::empty()
    } else if vars.len() == 1 {
        clone_call(vars[0])
    } else {
        clone_args_join(vars.drop_last()) + seq![TokenModel::Punct(',')] + clone_call(vars.last())
    }
}

/// One `name.clone()` call.
pub open spec fn clone_call(v: VarModel) -> Seq<TokenModel> {
    seq![
        TokenModel::Ident(v.identifier),
        TokenModel::Punct('.'),
        TokenModel::Ident("clone"@),
        TokenModel::Group(Delim::Paren, Seq::empty()),
    ]
}

/// Each variable's name followed by a comma: the struct-literal field list.
pub open spec fn idents_each_comma(vars: Seq<VarModel>) -> Seq<TokenModel>
    decreases vars.len(),
{
    if vars.len() == 0 {
        Seq::empty()
    } else {
        idents_each_comma(vars.drop_last()) + seq![
            TokenModel::Ident(vars.last().identifier),
            TokenModel::Punct(','),
        ]
    }
}

/// The parenthesized tuple of the variables' names.
pub open spec fn tuple_model(vars: Seq<VarModel>) -> TokenModel {
    TokenModel::Group(Delim::Paren, idents_join(vars))
}

/// Emits a comma-separated list of `name : type` entries.
fn fields_join_exec(vars: &Vec<SparVar>) -> (r: Vec<Token>)
    ensures
        tokens_model(r@) == fields_join(vars_model(vars@)),
{
    let ghost vm = vars_model(vars@);
    let mut out: Vec<Token> = Vec::new();
    let mut k: usize = 0;
    proof {
        assert(vm.take(0) =~= Seq::<VarModel>::empty());
        assert(tokens_model(out@) =~= fields_join(vm.take(0)));
    }
    while k < vars.len()
        invariant
            k <= vars@.len(),
            vm == vars_model(vars@),
            vm.len() == vars@.len(),
            tokens_model(out@) == fields_join(vm.take(k as int)),
        decreases vars@.len() - k,
    {
        if k > 0 {
            push_punct(&mut out, ',');
        }
        push_ident_string(&mut out, vars[k].identifier.clone());
        push_punct(&mut out, ':');
        push_tokens(&mut out, crate::tokens::clone_tokens(&vars[k].var_type.0));
        proof {
            assert(vm.take(k + 1).drop_last() =~= vm.take(k as int));
            assert(vm.take(k + 1).last() == vm[k as int]);
            assert(tokens_model(out@) =~= fields_join(vm.take(k + 1)));
        }
        k = k + 1;
    }
    proof {
        assert(vm.take(vars@.len() as int) =~= vm);
    }
    out
}

/// Emits a comma-separated list of the variables' names.
fn idents_join_exec(vars: &Vec<SparVar>) -> (r: Vec<Token>)
    ensures
        tokens_model(r@) == idents_join(vars_model(vars@)),
{
    let ghost vm = vars_model(vars@);
    let mut out: Vec<Token> = Vec::new();
    let mut k: usize = 0;
    proof {
        assert(vm.take(0) =~= Seq::<VarModel>::empty());
        assert(tokens_model(out@) =~= idents_join(vm.take(0)));
    }
    while k < vars.len()
        invariant
            k <= vars@.len(),
            vm == vars_model(vars@),
            vm.len() == vars@.len(),
            tokens_model(out@) == idents_join(vm.take(k as int)),
        decreases vars@.len() - k,
    {
        if k > 0 {
            push_punct(&mut out, ',');
        }
        push_ident_string(&mut out, vars[k].identifier.clone());
        proof {
            assert(vm.take(k + 1).drop_last() =~= vm.take(k as int));
            assert(vm.take(k + 1).last() == vm[k as int]);
            assert(tokens_model(out@) =~= idents_join(vm.take(k + 1)));
        }
        k = k + 1;
    }
    proof {
        assert(vm.take(vars@.len() as int) =~= vm);
    }
    out
}

/// Emits a comma-separated list of `mut name` entries.
fn mut_idents_join_exec(vars: &Vec<SparVar>) -> (r: Vec<Token>)
    ensures
        tokens_model(r@) == mut_idents_join(vars_model(vars@)),
{
    let ghost vm = vars_model(vars@);
    let mut out: Vec<Token> = Vec::new();
    let mut k: usize = 0;
    proof {
        assert(vm.take(0) =~= Seq::<VarModel>::empty());
        assert(tokens_model(out@) =~= mut_idents_join(vm.take(0)));
    }
    while k < vars.len()
        invariant
            k <= vars@.len(),
            vm == vars_model(vars@),
            vm.len() == vars@.len(),
            tokens_model(out@) == mut_idents_join(vm.take(k as int)),
        decreases vars@.len() - k,
    {
        if k > 0 {
            push_punct(&mut out, ',');
        }
        push_ident(&mut out, "mut");
        push_ident_string(&mut out, vars[k].identifier.clone());
        proof {
            assert(vm.take(k + 1).drop_last() =~= vm.take(k as int));
            assert(vm.take(k + 1).last() == vm[k as int]);
            assert(tokens_model(out@) =~= mut_idents_join(vm.take(k + 1)));
        }
        k = k + 1;
    }
    proof {
        assert(vm.take(vars@.len() as int) =~= vm);
    }
    out
}

/// Emits a comma-separated list of the variables' types.
fn types_join_exec(vars: &Vec<SparVar>) -> (r: Vec<Token>)
    ensures
        tokens_model(r@) == types_join(vars_model(vars@)),
{
    let ghost vm = vars_model(vars@);
    let mut out: Vec<Token> = Vec::new();
    let mut k: usize = 0;
    proof {
        assert(vm.take(0) =~= Seq::<VarModel>::empty());
        assert(tokens_model(out@) =~= types_join(vm.take(0)));
    }
    while k < vars.len()
        invariant
            k <= vars@.len(),
            vm == vars_model(vars@),
            vm.len() == vars@.len(),
            tokens_model(out@) == types_join(vm.take(k as int)),
        decreases vars@.len() - k,
    {
        if k > 0 {
            push_punct(&mut out, ',');
        }
        push_tokens(&mut out, crate::tokens::clone_tokens(&vars[k].var_type.0));
        proof {
            assert(vm.take(k + 1).drop_last() =~= vm.take(k as int));
            assert(vm.take(k + 1).last() == vm[k as int]);
            assert(tokens_model(out@) =~= types_join(vm.take(k + 1)));
        }
        k = k + 1;
    }
    proof {
        assert(vm.take(vars@.len() as int) =~= vm);
    }
    out
}

/// Emits a comma-separated list of `name.clone()` calls.
fn clone_args_join_exec(vars: &Vec<SparVar>) -> (r: Vec<Token>)
    ensures
        tokens_model(r@) == clone_args_join(vars_model(vars@)),
{
    let ghost vm = vars_model(vars@);
    let mut out: Vec<Token> = Vec::new();
    let mut k: usize = 0;
    proof {
        assert(vm.take(0) =~= Seq::<VarModel>::empty());
        assert(tokens_model(out@) =~= clone_args_join(vm.take(0)));
    }
    while k < vars.len()
        invariant
            k <= vars@.len(),
            vm == vars_model(vars@),
            vm.len() == vars@.len(),
            tokens_model(out@) == clone_args_join(vm.take(k as int)),
        decreases vars@.len() - k,
    {
        if k > 0 {
            push_punct(&mut out, ',');
        }
        push_ident_string(&mut out, vars[k].identifier.clone());
        push_punct(&mut out, '.');
        push_ident(&mut out, "clone");
        push_group(&mut out, Delim::Paren, Vec::new());
        proof {
            assert(vm.take(k + 1).drop_last() =~= vm.take(k as int));
            assert(vm.take(k + 1).last() == vm[k as int]);
            assert(tokens_model(Seq::<Token>::empty()) =~= Seq::<TokenModel>::empty());
            assert(tokens_model(out@) =~= clone_args_join(vm.take(k + 1)));
        }
        k = k + 1;
    }
    proof {
        assert(vm.take(vars@.len() as int) =~= vm);
    }
    out
}

/// Emits each variable's name followed by a comma.
fn idents_each_comma_exec(vars: &Vec<SparVar>) -> (r: Vec<Token>)
    ensures
        tokens_model(r@) == idents_each_comma(vars_model(vars@)),
{
    let ghost vm = vars_model(vars@);
    let mut out: Vec<Token> = Vec::new();
    let mut k: usize = 0;
    proof {
        assert(vm.take(0) =~= Seq::<VarModel>::empty());
        assert(tokens_model(out@) =~= idents_each_comma(vm.take(0)));
    }
    while k < vars.len()
        invariant
            k <= vars@.len(),
            vm == vars_model(vars@),
            vm.len() == vars@.len(),
            tokens_model(out@) == idents_each_comma(vm.take(k as int)),
        decreases vars@.len() - k,
    {
        push_ident_string(&mut out, vars[k].identifier.clone());
        push_punct(&mut out, ',');
        proof {
            assert(vm.take(k + 1).drop_last() =~= vm.take(k as int));
            assert(vm.take(k + 1).last() == vm[k as int]);
            assert(tokens_model(out@) =~= idents_each_comma(vm.take(k + 1)));
        }
        k = k + 1;
    }
    proof {
        assert(vm.take(vars@.len() as int) =~= vm);
    }
    out
}

/// Whether the splice marker occurs anywhere in the tokens, under any
/// nesting.
pub open spec fn contains_marker(ts: Seq<TokenModel>) -> bool
    decreases ts,
{
    if ts.len() == 0 {
        false
    } else {
        let rest = contains_marker(ts.skip(1));
        match ts[0] {
            TokenModel::Ident(name) => name == "__SPAR_MARKER__"@ || rest,
            TokenModel::Group(d, inner) => contains_marker(inner) || rest,
            _ => rest,
        }
    }
}

/// The tokens with every occurrence of the splice marker, under any
/// nesting, replaced by the replacement sequence.
pub open spec fn replace_marker(ts: Seq<TokenModel>, repl: Seq<TokenModel>) -> Seq<TokenModel>
    decreases ts,
{
    if ts.len() == 0 {
        Seq::empty()
    } else {
        let rest = replace_marker(ts.skip(1), repl);
        match ts[0] {
            TokenModel::Ident(name) => if name == "__SPAR_MARKER__"@ {
                repl + rest
            } else {
                seq![ts[0]] + rest
            },
            TokenModel::Group(d, inner) => seq![TokenModel::Group(d, replace_marker(inner, repl))]
                + rest,
            _ => seq![ts[0]] + rest,
        }
    }
}

/// Appends the code with every splice marker replaced; reports whether any
/// marker was found.
fn copy_code(toks: &Vec<Token>, i: usize, repl: &Vec<Token>, out: &mut Vec<Token>) -> (found: bool)
    requires
        i <= toks@.len(),
    ensures
        tokens_model(final(out)@) == tokens_model(old(out)@) + replace_marker(
            tokens_model(toks@).skip(i as int),
            tokens_model(repl@),
        ),
        found == contains_marker(tokens_model(toks@).skip(i as int)),
    decreases toks@, toks@.len() - i,
{
    let ghost m = tokens_model(toks@);
    let ghost ts = m.skip(i as int);
    let ghost rm = tokens_model(repl@);
    proof {
        lemma_tokens_model_len(toks@);
    }
    if i >= toks.len() {
        proof {
            assert(tokens_model(out@) + replace_marker(ts, rm) =~= tokens_model(out@));
        }
        return false;
    }
    proof {
        lemma_tokens_model_index(toks@, i as int);
        assert(ts[0] == m[i as int]);
        assert(ts.skip(1) =~= m.skip(i + 1));
    }
    match &toks[i] {
        Token::Ident(name) => {
            if crate::parse::str_is(name, "__SPAR_MARKER__") {
                let ghost before = tokens_model(out@);
                push_tokens(out, crate::tokens::clone_tokens(repl));
                let ghost mid = tokens_model(out@);
                copy_code(toks, i + 1, repl, out);
                proof {
                    assert(tokens_model(out@) =~= before + (rm + replace_marker(ts.skip(1), rm)));
                }
                true
            } else {
                let ghost before = tokens_model(out@);
                let ghost prev = out@;
                out.push(crate::tokens::clone_token(&toks[i]));
                proof {
                    lemma_tokens_model_push(prev, out@.last());
                    assert(out@ =~= prev.push(out@.last()));
                }
                let found = copy_code(toks, i + 1, repl, out);
                proof {
                    assert(tokens_model(out@) =~= before + (seq![ts[0]] + replace_marker(
                        ts.skip(1),
                        rm,
                    )));
                }
                found
            }
        },
        Token::Group(d, inner) => {
            proof {
                assert(decreases_to!(toks@ => toks@[i as int]));
                assert(decreases_to!(toks@[i as int] => inner@));
                assert(tokens_model(inner@).skip(0) =~= tokens_model(inner@));
            }
            let mut g: Vec<Token> = Vec::new();
            proof {
                assert(tokens_model(g@) =~= Seq::<TokenModel>::empty());
            }
            let fin = copy_code(inner, 0, repl, &mut g);
            proof {
                assert(tokens_model(g@) =~= replace_marker(tokens_model(inner@), rm));
            }
            let ghost before = tokens_model(out@);
            push_group(out, *d, g);
            let found = copy_code(toks, i + 1, repl, out);
            proof {
                assert(tokens_model(out@) =~= before + (seq![
                    TokenModel::Group(*d, replace_marker(tokens_model(inner@), rm)),
                ] + replace_marker(ts.skip(1), rm)));
            }
            fin || found
        },
        _ => {
            let ghost before = tokens_model(out@);
            let ghost prev = out@;
            out.push(crate::tokens::clone_token(&toks[i]));
            proof {
                lemma_tokens_model_push(prev, out@.last());
                assert(out@ =~= prev.push(out@.last()));
            }
            let found = copy_code(toks, i + 1, repl, out);
            proof {
                assert(tokens_model(out@) =~= before + (seq![ts[0]] + replace_marker(
                    ts.skip(1),
                    rm,
                )));
            }
            found
        },
    }
}

/// The submission call spliced into the driver code:
/// `spar_pipeline.post((a, b)).unwrap();`.
pub open spec fn post_call(inputs: Seq<VarModel>) -> Seq<TokenModel> {
    seq![
        TokenModel::Ident("spar_pipeline"@),
        TokenModel::Punct('.'),
        TokenModel::Ident("post"@),
        TokenModel::Group(Delim::Paren, seq![tuple_model(inputs)]),
        TokenModel::Punct('.'),
        TokenModel::Ident("unwrap"@),
        TokenModel::Group(Delim::Paren, Seq::empty()),
        TokenModel::Punct(';'),
    ]
}

/// The stage model behind an optional stage reference.
pub open spec fn opt_stage_model(o: Option<&SparStage>) -> Option<StageModel> {
    match o {
        Some(s) => Some(s@),
        None => None,
    }
}

/// The driver code with the submission call spliced in, and whether a
/// marker was found.  Where the driver code holds no marker, the
/// dispatcher is the bare submission call.  The submitted tuple holds the
/// next stage's resolved inputs, or the first stage's own where there is no
/// next stage.
pub open spec fn dispatcher_model(stage: StageModel, next: Option<StageModel>) -> (
    Seq<TokenModel>,
    bool,
) {
    let inputs = match next {
        Some(n) => n.attrs.input,
        None => stage.attrs.input,
    };
    let pc = post_call(inputs);
    if contains_marker(stage.code) {
        (replace_marker(stage.code, pc), true)
    } else {
        (pc, false)
    }
}

/// The driver-code dispatcher: the code that posts one unit of work to the
/// assembled pipeline for every iteration of the driver loop.
pub struct Dispatcher {
    pub code: Vec<Token>,
}

impl Dispatcher {
    /// Builds the dispatcher for the first stage, splicing the submission
    /// call where the splitter left the marker.
    pub fn new(stage: &SparStage, next_stage: Option<&SparStage>) -> (r: (Self, bool))
        ensures
            tokens_model(r.0.code@) == dispatcher_model(stage@, opt_stage_model(next_stage)).0,
            r.1 == dispatcher_model(stage@, opt_stage_model(next_stage)).1,
    {
        let idents = match next_stage {
            Some(n) => idents_join_exec(&n.attrs.input),
            None => idents_join_exec(&stage.attrs.input),
        };
        let mut post: Vec<Token> = Vec::new();
        proof {
            assert(tokens_model(post@) =~= Seq::<TokenModel>::empty());
        }
        push_ident(&mut post, "spar_pipeline");
        push_punct(&mut post, '.');
        push_ident(&mut post, "post");
        let mut arg: Vec<Token> = Vec::new();
        proof {
            assert(tokens_model(arg@) =~= Seq::<TokenModel>::empty());
        }
        push_group(&mut arg, Delim::Paren, idents);
        push_group(&mut post, Delim::Paren, arg);
        push_punct(&mut post, '.');
        push_ident(&mut post, "unwrap");
        push_group(&mut post, Delim::Paren, Vec::new());
        push_punct(&mut post, ';');
        let ghost inputs = match opt_stage_model(next_stage) {
            Some(n) => n.attrs.input,
            None => stage@.attrs.input,
        };
        proof {
            assert(tokens_model(Seq::<Token>::empty()) =~= Seq::<TokenModel>::empty());
            assert(tokens_model(post@) =~= post_call(inputs));
        }
        let mut gen: Vec<Token> = Vec::new();
        proof {
            assert(tokens_model(gen@) =~= Seq::<TokenModel>::empty());
            assert(tokens_model(stage.code@).skip(0) =~= tokens_model(stage.code@));
        }
        let found = copy_code(&stage.code, 0, &post, &mut gen);
        proof {
            assert(Seq::<TokenModel>::empty() + replace_marker(
                tokens_model(stage.code@),
                tokens_model(post@),
            ) =~= replace_marker(tokens_model(stage.code@), tokens_model(post@)));
        }
        if found {
            (Dispatcher { code: gen }, true)
        } else {
            (Dispatcher { code: post }, false)
        }
    }
}

/// The name of the worker struct of a stage.
pub open spec fn struct_name_str(id: int) -> Seq<char> {
    "SparStage"@ + dec_str(id)
}

/// One state deconstruction statement.  A state variable that is also an
/// output is cloned per unit (`let mut v = self.v.clone();`); any other is
/// borrowed (`let v = &mut self.v;`).
pub open spec fn deconstruct_var(v: VarModel, output: Seq<VarModel>) -> Seq<TokenModel> {
    if output.contains(v) {
        seq![
            TokenModel::Ident("let"@),
            TokenModel::Ident("mut"@),
            TokenModel::Ident(v.identifier),
            TokenModel::Punct('='),
            TokenModel::Ident("self"@),
            TokenModel::Punct('.'),
            TokenModel::Ident(v.identifier),
            TokenModel::Punct('.'),
            TokenModel::Ident("clone"@),
            TokenModel::Group(Delim::Paren, Seq::empty()),
            TokenModel::Punct(';'),
        ]
    } else {
        seq![
            TokenModel::Ident("let"@),
            TokenModel::Ident(v.identifier),
            TokenModel::Punct('='),
            TokenModel::Punct('&'),
            TokenModel::Ident("mut"@),
            TokenModel::Ident("self"@),
            TokenModel::Punct('.'),
            TokenModel::Ident(v.identifier),
            TokenModel::Punct(';'),
        ]
    }
}

/// The state deconstruction statements of a stage, in state order.
pub open spec fn deconstruct_join(state: Seq<VarModel>, output: Seq<VarModel>) -> Seq<TokenModel>
    decreases state.len(),
{
    if state.len() == 0 {
        Seq::empty()
    } else {
        deconstruct_join(state.drop_last(), output) + deconstruct_var(state.last(), output)
    }
}

/// The parenthesized tuple of the variables' types.
pub open spec fn types_tuple(vars: Seq<VarModel>) -> TokenModel {
    TokenModel::Group(Delim::Paren, types_join(vars))
}

/// The body of a worker's `process` method: unpack the unit, deconstruct
/// the state, run the stage body, and — for a transform worker — wrap the
/// outputs.
pub open spec fn process_body(st: StageModel, with_output: bool) -> Seq<TokenModel> {
    seq![
        TokenModel::Ident("let"@),
        TokenModel::Group(Delim::Paren, mut_idents_join(st.attrs.input)),
        TokenModel::Punct('='),
        TokenModel::Ident("input"@),
        TokenModel::Punct(';'),
    ] + deconstruct_join(st.state, st.attrs.output) + st.code + (if with_output {
        seq![
            TokenModel::Ident("Some"@),
            TokenModel::Group(Delim::Paren, seq![tuple_model(st.attrs.output)]),
        ]
    } else {
        Seq::empty()
    })
}

/// The path prefix `rust_spp :: blocks :: <m> ::`.
pub open spec fn runtime_path(m: Seq<char>) -> Seq<TokenModel> {
    seq![
        TokenModel::Ident("rust_spp"@),
        TokenModel::Punct(':'),
        TokenModel::Punct(':'),
        TokenModel::Ident("blocks"@),
        TokenModel::Punct(':'),
        TokenModel::Punct(':'),
        TokenModel::Ident(m),
        TokenModel::Punct(':'),
        TokenModel::Punct(':'),
    ]
}

/// The transform-worker impl: `InOut<(ins), (outs)>` with a `process` that
/// consumes one unit and yields one.
pub open spec fn inout_impl(st: StageModel) -> Seq<TokenModel> {
    seq![TokenModel::Ident("impl"@)] + runtime_path("inout_block"@) + seq![
        TokenModel::Ident("InOut"@),
        TokenModel::Punct('<'),
        types_tuple(st.attrs.input),
        TokenModel::Punct(','),
        types_tuple(st.attrs.output),
        TokenModel::Punct('>'),
        TokenModel::Ident("for"@),
        TokenModel::Ident(struct_name_str(st.id as int)),
        TokenModel::Group(
            Delim::Brace,
            seq![
                TokenModel::Ident("fn"@),
                TokenModel::Ident("process"@),
                TokenModel::Group(
                    Delim::Paren,
                    seq![
                        TokenModel::Punct('&'),
                        TokenModel::Ident("mut"@),
                        TokenModel::Ident("self"@),
                        TokenModel::Punct(','),
                        TokenModel::Ident("input"@),
                        TokenModel::Punct(':'),
                        types_tuple(st.attrs.input),
                    ],
                ),
                TokenModel::Punct('-'),
                TokenModel::Punct('>'),
                TokenModel::Ident("Option"@),
                TokenModel::Punct('<'),
                types_tuple(st.attrs.output),
                TokenModel::Punct('>'),
                TokenModel::Group(Delim::Brace, process_body(st, true)),
            ],
        ),
    ]
}

/// The sink-worker impl: `In<(ins)>` with a `process` that consumes one
/// unit in submission order.
pub open spec fn in_impl(st: StageModel) -> Seq<TokenModel> {
    seq![TokenModel::Ident("impl"@)] + runtime_path("in_block"@) + seq![
        TokenModel::Ident("In"@),
        TokenModel::Punct('<'),
        types_tuple(st.attrs.input),
        TokenModel::Punct('>'),
        TokenModel::Ident("for"@),
        TokenModel::Ident(struct_name_str(st.id as int)),
        TokenModel::Group(
            Delim::Brace,
            seq![
                TokenModel::Ident("fn"@),
                TokenModel::Ident("process"@),
                TokenModel::Group(
                    Delim::Paren,
                    seq![
                        TokenModel::Punct('&'),
                        TokenModel::Ident("mut"@),
                        TokenModel::Ident("self"@),
                        TokenModel::Punct(','),
                        TokenModel::Ident("input"@),
                        TokenModel::Punct(':'),
                        types_tuple(st.attrs.input),
                        TokenModel::Punct(','),
                        TokenModel::Ident("order"@),
                        TokenModel::Punct(':'),
                        TokenModel::Ident("u64"@),
                    ],
                ),
                TokenModel::Group(Delim::Brace, process_body(st, false)),
            ],
        ),
    ]
}

/// The worker struct, its constructor, and the state it carries.
pub open spec fn struct_head(st: StageModel) -> Seq<TokenModel> {
    seq![
        TokenModel::Ident("struct"@),
        TokenModel::Ident(struct_name_str(st.id as int)),
        TokenModel::Group(Delim::Brace, fields_join(st.state)),
        TokenModel::Ident("impl"@),
        TokenModel::Ident(struct_name_str(st.id as int)),
        TokenModel::Group(
            Delim::Brace,
            seq![
                TokenModel::Ident("fn"@),
                TokenModel::Ident("new"@),
                TokenModel::Group(Delim::Paren, fields_join(st.state)),
                TokenModel::Punct('-'),
                TokenModel::Punct('>'),
                TokenModel::Ident("Self"@),
                TokenModel::Group(
                    Delim::Brace,
                    seq![
                        TokenModel::Ident("Self"@),
                        TokenModel::Group(Delim::Brace, idents_each_comma(st.state)),
                    ],
                ),
            ],
        ),
    ]
}

/// The full worker code of one stage: struct, constructor, and the
/// transform or sink impl.  A stage without inputs has no worker shape.
pub open spec fn stage_struct_model(st: StageModel) -> Option<Seq<TokenModel>> {
    if st.attrs.input.len() > 0 && st.attrs.output.len() > 0 {
        Some(struct_head(st) + inout_impl(st))
    } else if st.attrs.input.len() > 0 {
        Some(struct_head(st) + in_impl(st))
    } else {
        None
    }
}

/// Emits the state deconstruction statements of a stage.
#[verifier::rlimit(50)]
fn deconstruct_join_exec(state: &Vec<SparVar>, output: &Vec<SparVar>) -> (r: Vec<Token>)
    ensures
        tokens_model(r@) == deconstruct_join(vars_model(state@), vars_model(output@)),
{
    let ghost sm = vars_model(state@);
    let ghost om = vars_model(output@);
    let mut out: Vec<Token> = Vec::new();
    let mut k: usize = 0;
    proof {
        assert(sm.take(0) =~= Seq::<VarModel>::empty());
        assert(tokens_model(out@) =~= deconstruct_join(sm.take(0), om));
    }
    while k < state.len()
        invariant
            k <= state@.len(),
            sm == vars_model(state@),
            om == vars_model(output@),
            sm.len() == state@.len(),
            tokens_model(out@) == deconstruct_join(sm.take(k as int), om),
        decreases state@.len() - k,
    {
        let is_out = crate::spar_stream::vars_contains(output, &state[k]);
        push_ident(&mut out, "let");
        if is_out {
            push_ident(&mut out, "mut");
            push_ident_string(&mut out, state[k].identifier.clone());
            push_punct(&mut out, '=');
            push_ident(&mut out, "self");
            push_punct(&mut out, '.');
            push_ident_string(&mut out, state[k].identifier.clone());
            push_punct(&mut out, '.');
            push_ident(&mut out, "clone");
            push_group(&mut out, Delim::Paren, Vec::new());
            push_punct(&mut out, ';');
        } else {
            push_ident_string(&mut out, state[k].identifier.clone());
            push_punct(&mut out, '=');
            push_punct(&mut out, '&');
            push_ident(&mut out, "mut");
            push_ident(&mut out, "self");
            push_punct(&mut out, '.');
            push_ident_string(&mut out, state[k].identifier.clone());
            push_punct(&mut out, ';');
        }
        proof {
            assert(sm.take(k + 1).drop_last() =~= sm.take(k as int));
            assert(sm.take(k + 1).last() == sm[k as int]);
            assert(tokens_model(Seq::<Token>::empty()) =~= Seq::<TokenModel>::empty());
            assert(tokens_model(out@) =~= deconstruct_join(sm.take(k + 1), om));
        }
        k = k + 1;
    }
    proof {
        assert(sm.take(state@.len() as int) =~= sm);
    }
    out
}

/// The owned name of a stage's worker struct.
fn struct_name_of(id: usize) -> (r: String)
    ensures
        r@ == struct_name_str(id as int),
{
    let mut name = "SparStage".to_owned();
    name.append(usize_to_string(id).as_str());
    name
}

/// Emits the worker struct and its constructor.
#[verifier::rlimit(50)]
fn gen_struct_head(stage: &SparStage) -> (r: Vec<Token>)
    ensures
        tokens_model(r@) == struct_head(stage@),
{
    let mut code: Vec<Token> = Vec::new();
    proof {
        assert(tokens_model(code@) =~= Seq::<TokenModel>::empty());
    }
    push_ident(&mut code, "struct");
    push_ident_string(&mut code, struct_name_of(stage.id));
    push_group(&mut code, Delim::Brace, fields_join_exec(&stage.state));
    push_ident(&mut code, "impl");
    push_ident_string(&mut code, struct_name_of(stage.id));
    let mut ctor: Vec<Token> = Vec::new();
    proof {
        assert(tokens_model(ctor@) =~= Seq::<TokenModel>::empty());
    }
    push_ident(&mut ctor, "fn");
    push_ident(&mut ctor, "new");
    push_group(&mut ctor, Delim::Paren, fields_join_exec(&stage.state));
    push_punct(&mut ctor, '-');
    push_punct(&mut ctor, '>');
    push_ident(&mut ctor, "Self");
    let mut ctor_body: Vec<Token> = Vec::new();
    proof {
        assert(tokens_model(ctor_body@) =~= Seq::<TokenModel>::empty());
    }
    push_ident(&mut ctor_body, "Self");
    push_group(&mut ctor_body, Delim::Brace, idents_each_comma_exec(&stage.state));
    proof {
        assert(tokens_model(ctor_body@) =~~= seq![
            TokenModel::Ident("Self"@),
            TokenModel::Group(Delim::Brace, idents_each_comma(stage@.state)),
        ]);
    }
    push_group(&mut ctor, Delim::Brace, ctor_body);
    proof {
        assert(tokens_model(ctor@) =~~= seq![
            TokenModel::Ident("fn"@),
            TokenModel::Ident("new"@),
            TokenModel::Group(Delim::Paren, fields_join(stage@.state)),
            TokenModel::Punct('-'),
            TokenModel::Punct('>'),
            TokenModel::Ident("Self"@),
            TokenModel::Group(
                Delim::Brace,
                seq![
                    TokenModel::Ident("Self"@),
                    TokenModel::Group(Delim::Brace, idents_each_comma(stage@.state)),
                ],
            ),
        ]);
    }
    push_group(&mut code, Delim::Brace, ctor);
    proof {
        assert(tokens_model(code@) =~~= struct_head(stage@));
    }
    code
}

/// Emits the body of a worker's `process` method.
fn gen_process_body(stage: &SparStage, with_output: bool) -> (r: Vec<Token>)
    ensures
        tokens_model(r@) == process_body(stage@, with_output),
{
    let mut body: Vec<Token> = Vec::new();
    proof {
        assert(tokens_model(body@) =~= Seq::<TokenModel>::empty());
    }
    push_ident(&mut body, "let");
    push_group(&mut body, Delim::Paren, mut_idents_join_exec(&stage.attrs.input));
    push_punct(&mut body, '=');
    push_ident(&mut body, "input");
    push_punct(&mut body, ';');
    push_tokens(&mut body, deconstruct_join_exec(&stage.state, &stage.attrs.output));
    push_tokens(&mut body, crate::tokens::clone_tokens(&stage.code));
    if with_output {
        push_ident(&mut body, "Some");
        let mut outs: Vec<Token> = Vec::new();
        proof {
            assert(tokens_model(outs@) =~= Seq::<TokenModel>::empty());
        }
        push_group(&mut outs, Delim::Paren, idents_join_exec(&stage.attrs.output));
        push_group(&mut body, Delim::Paren, outs);
    }
    proof {
        assert(tokens_model(body@) =~~= process_body(stage@, with_output));
    }
    body
}

/// Emits the transform-worker impl of a stage.
#[verifier::rlimit(50)]
fn gen_inout_impl(stage: &SparStage) -> (r: Vec<Token>)
    ensures
        tokens_model(r@) == inout_impl(stage@),
{
    let body = gen_process_body(stage, true);
    let mut code: Vec<Token> = Vec::new();
    proof {
        assert(tokens_model(code@) =~= Seq::<TokenModel>::empty());
    }
    push_ident(&mut code, "impl");
    push_ident(&mut code, "rust_spp");
    push_punct(&mut code, ':');
    push_punct(&mut code, ':');
    push_ident(&mut code, "blocks");
    push_punct(&mut code, ':');
    push_punct(&mut code, ':');
    push_ident(&mut code, "inout_block");
    push_punct(&mut code, ':');
    push_punct(&mut code, ':');
    push_ident(&mut code, "InOut");
    push_punct(&mut code, '<');
    push_group(&mut code, Delim::Paren, types_join_exec(&stage.attrs.input));
    push_punct(&mut code, ',');
    push_group(&mut code, Delim::Paren, types_join_exec(&stage.attrs.output));
    push_punct(&mut code, '>');
    push_ident(&mut code, "for");
    push_ident_string(&mut code, struct_name_of(stage.id));
    let mut imp: Vec<Token> = Vec::new();
    proof {
        assert(tokens_model(imp@) =~= Seq::<TokenModel>::empty());
    }
    push_ident(&mut imp, "fn");
    push_ident(&mut imp, "process");
    let mut params: Vec<Token> = Vec::new();
    proof {
        assert(tokens_model(params@) =~= Seq::<TokenModel>::empty());
    }
    push_punct(&mut params, '&');
    push_ident(&mut params, "mut");
    push_ident(&mut params, "self");
    push_punct(&mut params, ',');
    push_ident(&mut params, "input");
    push_punct(&mut params, ':');
    push_group(&mut params, Delim::Paren, types_join_exec(&stage.attrs.input));
    proof {
        assert(tokens_model(params@) =~~= seq![
            TokenModel::Punct('&'),
            TokenModel::Ident("mut"@),
            TokenModel::Ident("self"@),
            TokenModel::Punct(','),
            TokenModel::Ident("input"@),
            TokenModel::Punct(':'),
            types_tuple(stage@.attrs.input),
        ]);
    }
    push_group(&mut imp, Delim::Paren, params);
    push_punct(&mut imp, '-');
    push_punct(&mut imp, '>');
    push_ident(&mut imp, "Option");
    push_punct(&mut imp, '<');
    push_group(&mut imp, Delim::Paren, types_join_exec(&stage.attrs.output));
    push_punct(&mut imp, '>');
    push_group(&mut imp, Delim::Brace, body);
    proof {
        assert(tokens_model(imp@) =~~= seq![
            TokenModel::Ident("fn"@),
            TokenModel::Ident("process"@),
            TokenModel::Group(
                Delim::Paren,
                seq![
                    TokenModel::Punct('&'),
                    TokenModel::Ident("mut"@),
                    TokenModel::Ident("self"@),
                    TokenModel::Punct(','),
                    TokenModel::Ident("input"@),
                    TokenModel::Punct(':'),
                    types_tuple(stage@.attrs.input),
                ],
            ),
            TokenModel::Punct('-'),
            TokenModel::Punct('>'),
            TokenModel::Ident("Option"@),
            TokenModel::Punct('<'),
            types_tuple(stage@.attrs.output),
            TokenModel::Punct('>'),
            TokenModel::Group(Delim::Brace, process_body(stage@, true)),
        ]);
    }
    push_group(&mut code, Delim::Brace, imp);
    proof {
        assert(tokens_model(code@) =~~= inout_impl(stage@));
    }
    code
}

/// Emits the sink-worker impl of a stage.
#[verifier::rlimit(50)]
fn gen_in_impl(stage: &SparStage) -> (r: Vec<Token>)
    ensures
        tokens_model(r@) == in_impl(stage@),
{
    let body = gen_process_body(stage, false);
    let mut code: Vec<Token> = Vec::new();
    proof {
        assert(tokens_model(code@) =~= Seq::<TokenModel>::empty());
    }
    push_ident(&mut code, "impl");
    push_ident(&mut code, "rust_spp");
    push_punct(&mut code, ':');
    push_punct(&mut code, ':');
    push_ident(&mut code, "blocks");
    push_punct(&mut code, ':');
    push_punct(&mut code, ':');
    push_ident(&mut code, "in_block");
    push_punct(&mut code, ':');
    push_punct(&mut code, ':');
    push_ident(&mut code, "In");
    push_punct(&mut code, '<');
    push_group(&mut code, Delim::Paren, types_join_exec(&stage.attrs.input));
    push_punct(&mut code, '>');
    push_ident(&mut code, "for");
    push_ident_string(&mut code, struct_name_of(stage.id));
    let mut imp: Vec<Token> = Vec::new();
    proof {
        assert(tokens_model(imp@) =~= Seq::<TokenModel>::empty());
    }
    push_ident(&mut imp, "fn");
    push_ident(&mut imp, "process");
    let mut params: Vec<Token> = Vec::new();
    proof {
        assert(tokens_model(params@) =~= Seq::<TokenModel>::empty());
    }
    push_punct(&mut params, '&');
    push_ident(&mut params, "mut");
    push_ident(&mut params, "self");
    push_punct(&mut params, ',');
    push_ident(&mut params, "input");
    push_punct(&mut params, ':');
    push_group(&mut params, Delim::Paren, types_join_exec(&stage.attrs.input));
    push_punct(&mut params, ',');
    push_ident(&mut params, "order");
    push_punct(&mut params, ':');
    push_ident(&mut params, "u64");
    proof {
        assert(tokens_model(params@) =~~= seq![
            TokenModel::Punct('&'),
            TokenModel::Ident("mut"@),
            TokenModel::Ident("self"@),
            TokenModel::Punct(','),
            TokenModel::Ident("input"@),
            TokenModel::Punct(':'),
            types_tuple(stage@.attrs.input),
            TokenModel::Punct(','),
            TokenModel::Ident("order"@),
            TokenModel::Punct(':'),
            TokenModel::Ident("u64"@),
        ]);
    }
    push_group(&mut imp, Delim::Paren, params);
    push_group(&mut imp, Delim::Brace, body);
    proof {
        assert(tokens_model(imp@) =~~= seq![
            TokenModel::Ident("fn"@),
            TokenModel::Ident("process"@),
            TokenModel::Group(
                Delim::Paren,
                seq![
                    TokenModel::Punct('&'),
                    TokenModel::Ident("mut"@),
                    TokenModel::Ident("self"@),
                    TokenModel::Punct(','),
                    TokenModel::Ident("input"@),
                    TokenModel::Punct(':'),
                    types_tuple(stage@.attrs.input),
                    TokenModel::Punct(','),
                    TokenModel::Ident("order"@),
                    TokenModel::Punct(':'),
                    TokenModel::Ident("u64"@),
                ],
            ),
            TokenModel::Group(Delim::Brace, process_body(stage@, false)),
        ]);
    }
    push_group(&mut code, Delim::Brace, imp);
    proof {
        assert(tokens_model(code@) =~~= in_impl(stage@));
    }
    code
}

/// Emits the worker unit of one stage: the carrying struct, its
/// constructor, and a transform impl (inputs and outputs), or a sink impl
/// (inputs only).  A stage without inputs is a hard generation error.
pub fn rust_spp_stage_struct_gen(stage: &SparStage) -> (r: Result<Vec<Token>, SparError>)
    ensures
        match r {
            Ok(o) => stage_struct_model(stage@) == Some(tokens_model(o@)),
            Err(_) => stage_struct_model(stage@) is None,
        },
{
    if stage.attrs.input.len() == 0 {
        return Err(SparError::new("a stage without input is invalid", 0));
    }
    let mut code = gen_struct_head(stage);
    if stage.attrs.output.len() > 0 {
        push_tokens(&mut code, gen_inout_impl(stage));
    } else {
        push_tokens(&mut code, gen_in_impl(stage));
    }
    Ok(code)
}

/// The worker constructor call `SparStageN::new(a.clone(), ...)`.
pub open spec fn ctor_call(st: StageModel) -> Seq<TokenModel> {
    seq![
        TokenModel::Ident(struct_name_str(st.id as int)),
        TokenModel::Punct(':'),
        TokenModel::Punct(':'),
        TokenModel::Ident("new"@),
        TokenModel::Group(Delim::Paren, clone_args_join(st.state)),
    ]
}

/// The pipeline node of one stage: a sequential policy becomes a single
/// ordered node; a replication policy becomes a parallel node with its
/// replica count.
pub open spec fn pipeline_arg_model(st: StageModel, workers: Option<u32>) -> Seq<TokenModel> {
    if st.attrs.replicate is SeqOrdered || st.attrs.replicate is SeqUnordered {
        seq![
            TokenModel::Ident("rust_spp"@),
            TokenModel::Punct(':'),
            TokenModel::Punct(':'),
            TokenModel::Ident("sequential_ordered"@),
            TokenModel::Punct('!'),
            TokenModel::Group(Delim::Paren, ctor_call(st)),
        ]
    } else {
        seq![
            TokenModel::Ident("rust_spp"@),
            TokenModel::Punct(':'),
            TokenModel::Punct(':'),
            TokenModel::Ident("parallel"@),
            TokenModel::Punct('!'),
            TokenModel::Group(
                Delim::Paren,
                ctor_call(st) + seq![TokenModel::Punct(',')] + gen_replicate_model(
                    st.attrs.replicate,
                    workers,
                ),
            ),
        ]
    }
}

/// The comma-separated pipeline nodes of all stages.
pub open spec fn pipeline_args_join(stages: Seq<StageModel>, workers: Option<u32>) -> Seq<
    TokenModel,
>
    decreases stages.len(),
{
    if stages.len() == 0 {
        Seq::empty()
    } else if stages.len() == 1 {
        pipeline_arg_model(stages[0], workers)
    } else {
        pipeline_args_join(stages.drop_last(), workers) + seq![TokenModel::Punct(',')]
            + pipeline_arg_model(stages.last(), workers)
    }
}

/// Emits the pipeline node of one stage.
#[verifier::rlimit(50)]
pub fn rust_spp_pipeline_arg(stage: &SparStage, workers: Option<u32>) -> (r: Vec<Token>)
    ensures
        tokens_model(r@) == pipeline_arg_model(stage@, workers),
{
    let mut ctor: Vec<Token> = Vec::new();
    proof {
        assert(tokens_model(ctor@) =~= Seq::<TokenModel>::empty());
    }
    push_ident_string(&mut ctor, struct_name_of(stage.id));
    push_punct(&mut ctor, ':');
    push_punct(&mut ctor, ':');
    push_ident(&mut ctor, "new");
    push_group(&mut ctor, Delim::Paren, clone_args_join_exec(&stage.state));
    proof {
        assert(tokens_model(ctor@) =~~= ctor_call(stage@));
    }
    let mut out: Vec<Token> = Vec::new();
    proof {
        assert(tokens_model(out@) =~= Seq::<TokenModel>::empty());
    }
    push_ident(&mut out, "rust_spp");
    push_punct(&mut out, ':');
    push_punct(&mut out, ':');
    if stage.attrs.replicate.is_sequential() {
        push_ident(&mut out, "sequential_ordered");
        push_punct(&mut out, '!');
        push_group(&mut out, Delim::Paren, ctor);
        proof {
            assert(tokens_model(out@) =~~= pipeline_arg_model(stage@, workers));
        }
    } else {
        push_ident(&mut out, "parallel");
        push_punct(&mut out, '!');
        let mut arg = ctor;
        push_punct(&mut arg, ',');
        push_tokens(&mut arg, gen_replicate(&stage.attrs.replicate, workers));
        proof {
            assert(tokens_model(arg@) =~~= ctor_call(stage@) + seq![TokenModel::Punct(',')]
                + gen_replicate_model(stage@.attrs.replicate, workers));
        }
        push_group(&mut out, Delim::Paren, arg);
        proof {
            assert(tokens_model(out@) =~~= pipeline_arg_model(stage@, workers));
        }
    }
    out
}

/// The pipeline declaration: the nodes in submission order, with a trailing
/// order-restoring collection node exactly when the stream declares any
/// output; a stream without outputs runs to completion with no collection
/// step.
pub open spec fn gen_pipeline_model(outputs: Seq<VarModel>, gen: Seq<TokenModel>) -> Seq<
    TokenModel,
> {
    let plain = outputs.len() == 0;
    seq![
        TokenModel::Ident("let"@),
        TokenModel::Ident("mut"@),
        TokenModel::Ident("spar_pipeline"@),
        TokenModel::Punct('='),
        TokenModel::Ident("rust_spp"@),
        TokenModel::Punct(':'),
        TokenModel::Punct(':'),
        TokenModel::Ident("pipeline"@),
        TokenModel::Punct('!'),
        TokenModel::Group(
            Delim::Bracket,
            if plain {
                gen
            } else {
                gen + seq![
                    TokenModel::Punct(','),
                    TokenModel::Ident("collect_ordered"@),
                    TokenModel::Punct('!'),
                    TokenModel::Group(Delim::Paren, Seq::empty()),
                ]
            },
        ),
        TokenModel::Punct(';'),
    ]
}

/// Emits the pipeline declaration for the stream's stages.
#[verifier::rlimit(50)]
pub fn rust_spp_gen_pipeline(spar_stream: &SparStream, gen: Vec<Token>) -> (r: Vec<Token>)
    ensures
        tokens_model(r@) == gen_pipeline_model(
            vars_model(spar_stream.attrs.output@),
            tokens_model(gen@),
        ),
{
    let plain = spar_stream.attrs.output.len() == 0;
    let mut out: Vec<Token> = Vec::new();
    proof {
        assert(tokens_model(out@) =~= Seq::<TokenModel>::empty());
    }
    push_ident(&mut out, "let");
    push_ident(&mut out, "mut");
    push_ident(&mut out, "spar_pipeline");
    push_punct(&mut out, '=');
    push_ident(&mut out, "rust_spp");
    push_punct(&mut out, ':');
    push_punct(&mut out, ':');
    push_ident(&mut out, "pipeline");
    push_punct(&mut out, '!');
    let ghost gm = tokens_model(gen@);
    let mut inner = gen;
    if !plain {
        push_punct(&mut inner, ',');
        push_ident(&mut inner, "collect_ordered");
        push_punct(&mut inner, '!');
        push_group(&mut inner, Delim::Paren, Vec::new());
        proof {
            assert(tokens_model(inner@) =~~= gm + seq![
                TokenModel::Punct(','),
                TokenModel::Ident("collect_ordered"@),
                TokenModel::Punct('!'),
                TokenModel::Group(Delim::Paren, Seq::<TokenModel>::empty()),
            ]);
        }
    }
    push_group(&mut out, Delim::Bracket, inner);
    push_punct(&mut out, ';');
    proof {
        assert(tokens_model(out@) =~~= gen_pipeline_model(
            vars_model(spar_stream.attrs.output@),
            tokens_model(gen@),
        ));
    }
    out
}

/// The worker code of every stage, in order; nothing where some stage has
/// no worker shape.
pub open spec fn structs_concat(stages: Seq<StageModel>) -> Option<Seq<TokenModel>>
    decreases stages.len(),
{
    if stages.len() == 0 {
        Some(Seq::empty())
    } else {
        match (structs_concat(stages.drop_last()), stage_struct_model(stages.last())) {
            (Some(a), Some(b)) => Some(a + b),
            _ => None,
        }
    }
}

proof fn lemma_structs_concat_none(stages: Seq<StageModel>, k: int)
    requires
        0 <= k < stages.len(),
        stage_struct_model(stages[k]) is None,
    ensures
        structs_concat(stages) is None,
    decreases stages.len(),
{
    if k < stages.len() - 1 {
        assert(stages.drop_last()[k] == stages[k]);
        lemma_structs_concat_none(stages.drop_last(), k);
    }
}

/// The opening `use rust_spp::*;` of the generated code.
pub open spec fn use_tokens() -> Seq<TokenModel> {
    seq![
        TokenModel::Ident("use"@),
        TokenModel::Ident("rust_spp"@),
        TokenModel::Punct(':'),
        TokenModel::Punct(':'),
        TokenModel::Punct('*'),
        TokenModel::Punct(';'),
    ]
}

/// The drain of a stream with outputs: collect in submission order.
pub open spec fn collect_tail() -> Seq<TokenModel> {
    seq![
        TokenModel::Ident("let"@),
        TokenModel::Ident("collection"@),
        TokenModel::Punct('='),
        TokenModel::Ident("spar_pipeline"@),
        TokenModel::Punct('.'),
        TokenModel::Ident("collect"@),
        TokenModel::Group(Delim::Paren, Seq::empty()),
        TokenModel::Punct(';'),
    ]
}

/// The drain of a stream without outputs: signal the end and wait.
pub open spec fn end_tail() -> Seq<TokenModel> {
    seq![
        TokenModel::Ident("spar_pipeline"@),
        TokenModel::Punct('.'),
        TokenModel::Ident("end_and_wait"@),
        TokenModel::Group(Delim::Paren, Seq::empty()),
        TokenModel::Punct(';'),
    ]
}

/// The stage after the first, if any: the dispatcher submits that stage's
/// resolved inputs.
pub open spec fn next0(sm: StreamModel) -> Option<StageModel> {
    if sm.stages.len() >= 2 {
        Some(sm.stages[1])
    } else {
        None
    }
}

/// The whole pipeline wiring code of a stream: the runtime import, the
/// worker units, the pipeline declaration, the dispatcher, and the drain.
/// Nothing where the stream has no stages or some stage has no worker
/// shape.
pub open spec fn rust_spp_gen_model(sm: StreamModel, workers: Option<u32>) -> Option<
    Seq<TokenModel>,
> {
    if sm.stages.len() == 0 {
        None
    } else {
        let disp = dispatcher_model(sm.stages[0], next0(sm));
        let rem = if disp.1 {
            sm.stages.drop_first()
        } else {
            sm.stages
        };
        match structs_concat(rem) {
            None => None,
            Some(structs) => Some(
                use_tokens() + structs + gen_pipeline_model(
                    sm.attrs.output,
                    pipeline_args_join(rem, workers),
                ) + disp.0 + (if sm.attrs.output.len() > 0 {
                    collect_tail()
                } else {
                    end_tail()
                }),
            ),
        }
    }
}

/// Emits the worker units and the comma-separated pipeline nodes of the
/// given stages.
#[verifier::rlimit(100)]
fn gen_structs_and_args(stages: &Vec<SparStage>, workers: Option<u32>) -> (r: Result<
    (Vec<Token>, Vec<Token>),
    SparError,
>)
    ensures
        match r {
            Ok(p) => structs_concat(stages_model(stages@)) == Some(tokens_model(p.0@))
                && tokens_model(p.1@) == pipeline_args_join(stages_model(stages@), workers),
            Err(_) => structs_concat(stages_model(stages@)) is None,
        },
{
    let ghost rem = stages_model(stages@);
    let mut code: Vec<Token> = Vec::new();
    let mut gen: Vec<Token> = Vec::new();
    let mut k: usize = 0;
    proof {
        assert(rem.take(0) =~= Seq::<StageModel>::empty());
        assert(tokens_model(gen@) =~= pipeline_args_join(rem.take(0), workers));
        assert(tokens_model(code@) =~= Seq::<TokenModel>::empty());
        assert(structs_concat(rem.take(0)) == Some(Seq::<TokenModel>::empty()));
    }
    while k < stages.len()
        invariant
            k <= stages@.len(),
            rem == stages_model(stages@),
            rem.len() == stages@.len(),
            structs_concat(rem.take(k as int)) is Some,
            tokens_model(code@) == structs_concat(rem.take(k as int))->Some_0,
            tokens_model(gen@) == pipeline_args_join(rem.take(k as int), workers),
        decreases stages@.len() - k,
    {
        let sc = match rust_spp_stage_struct_gen(&stages[k]) {
            Ok(sc) => sc,
            Err(e) => {
                proof {
                    lemma_structs_concat_none(rem, k as int);
                }
                return Err(e);
            },
        };
        proof {
            assert(rem.take(k + 1).drop_last() =~= rem.take(k as int));
            assert(rem.take(k + 1).last() == rem[k as int]);
        }
        push_tokens(&mut code, sc);
        if k > 0 {
            push_punct(&mut gen, ',');
        }
        push_tokens(&mut gen, rust_spp_pipeline_arg(&stages[k], workers));
        proof {
            assert(tokens_model(code@) =~= structs_concat(rem.take(k + 1))->Some_0);
            assert(tokens_model(gen@) =~= pipeline_args_join(rem.take(k + 1), workers));
        }
        k = k + 1;
    }
    proof {
        assert(rem.take(rem.len() as int) =~= rem);
    }
    Ok((code, gen))
}

/// Emits the opening runtime import.
fn gen_use_tokens() -> (r: Vec<Token>)
    ensures
        tokens_model(r@) == use_tokens(),
{
    let mut code: Vec<Token> = Vec::new();
    proof {
        assert(tokens_model(code@) =~= Seq::<TokenModel>::empty());
    }
    push_ident(&mut code, "use");
    push_ident(&mut code, "rust_spp");
    push_punct(&mut code, ':');
    push_punct(&mut code, ':');
    push_punct(&mut code, '*');
    push_punct(&mut code, ';');
    proof {
        assert(tokens_model(code@) =~= use_tokens());
    }
    code
}

/// Emits the ordered-collection drain.
fn gen_collect_tail() -> (r: Vec<Token>)
    ensures
        tokens_model(r@) == collect_tail(),
{
    let mut code: Vec<Token> = Vec::new();
    proof {
        assert(tokens_model(code@) =~= Seq::<TokenModel>::empty());
    }
    push_ident(&mut code, "let");
    push_ident(&mut code, "collection");
    push_punct(&mut code, '=');
    push_ident(&mut code, "spar_pipeline");
    push_punct(&mut code, '.');
    push_ident(&mut code, "collect");
    push_group(&mut code, Delim::Paren, Vec::new());
    push_punct(&mut code, ';');
    proof {
        assert(tokens_model(code@) =~~= collect_tail());
    }
    code
}

/// Emits the end-and-wait drain.
fn gen_end_tail() -> (r: Vec<Token>)
    ensures
        tokens_model(r@) == end_tail(),
{
    let mut code: Vec<Token> = Vec::new();
    proof {
        assert(tokens_model(code@) =~= Seq::<TokenModel>::empty());
    }
    push_ident(&mut code, "spar_pipeline");
    push_punct(&mut code, '.');
    push_ident(&mut code, "end_and_wait");
    push_group(&mut code, Delim::Paren, Vec::new());
    push_punct(&mut code, ';');
    proof {
        assert(tokens_model(code@) =~~= end_tail());
    }
    code
}

/// Emits the whole pipeline wiring code.  The driver stage, where its code
/// held the splice marker, turns into the dispatcher and leaves the stage
/// list.
#[verifier::rlimit(100)]
fn rust_spp_gen(spar_stream: &mut SparStream, workers: Option<u32>) -> (r: Result<
    Vec<Token>,
    SparError,
>)
    ensures
        match r {
            Ok(o) => rust_spp_gen_model(old(spar_stream)@, workers) == Some(tokens_model(o@)),
            Err(_) => rust_spp_gen_model(old(spar_stream)@, workers) is None,
        },
{
    let ghost sm = spar_stream@;
    if spar_stream.stages.len() == 0 {
        return Err(SparError::new("a stream without stages is invalid", 0));
    }
    let (dispatcher, found) = if spar_stream.stages.len() >= 2 {
        Dispatcher::new(&spar_stream.stages[0], Some(&spar_stream.stages[1]))
    } else {
        Dispatcher::new(&spar_stream.stages[0], None)
    };
    if found {
        spar_stream.stages.remove(0);
    }
    let ghost rem = stages_model(spar_stream.stages@);
    proof {
        if found {
            assert(rem =~= sm.stages.drop_first());
        } else {
            assert(rem =~= sm.stages);
        }
    }
    let (structs, gen) = match gen_structs_and_args(&spar_stream.stages, workers) {
        Ok(p) => p,
        Err(e) => {
            return Err(e);
        },
    };
    let mut code = gen_use_tokens();
    push_tokens(&mut code, structs);
    push_tokens(&mut code, rust_spp_gen_pipeline(spar_stream, gen));
    push_tokens(&mut code, dispatcher.code);
    let ghost part3 = use_tokens() + structs_concat(rem)->Some_0 + gen_pipeline_model(
        sm.attrs.output,
        pipeline_args_join(rem, workers),
    ) + dispatcher_model(sm.stages[0], next0(sm)).0;
    proof {
        assert(tokens_model(code@) == part3);
    }
    if spar_stream.attrs.output.len() > 0 {
        push_tokens(&mut code, gen_collect_tail());
    } else {
        push_tokens(&mut code, gen_end_tail());
    }
    proof {
        assert(tokens_model(code@) =~= rust_spp_gen_model(sm, workers)->Some_0);
    }
    Ok(code)
}

/// The declaration that restores one stream output:
/// `let mut name: type = Vec::new();`.
pub open spec fn restore_decl(v: VarModel) -> Seq<TokenModel> {
    seq![
        TokenModel::Ident("let"@),
        TokenModel::Ident("mut"@),
        TokenModel::Ident(v.identifier),
        TokenModel::Punct(':'),
    ] + v.var_type + seq![
        TokenModel::Punct('='),
        TokenModel::Ident("Vec"@),
        TokenModel::Punct(':'),
        TokenModel::Punct(':'),
        TokenModel::Ident("new"@),
        TokenModel::Group(Delim::Paren, Seq::empty()),
        TokenModel::Punct(';'),
    ]
}

/// The restoring declarations of all stream outputs, in order.
pub open spec fn restore_decls(outs: Seq<VarModel>) -> Seq<TokenModel>
    decreases outs.len(),
{
    if outs.len() == 0 {
        Seq::empty()
    } else {
        restore_decls(outs.drop_last()) + restore_decl(outs.last())
    }
}

/// The loop that extends one of several outputs from its tuple slot:
/// `for tuple in &collection { name.extend(&tuple.i); }`.  The loops borrow
/// the collection, since one runs per output.
pub open spec fn multi_loop(v: VarModel, i: int) -> Seq<TokenModel> {
    seq![
        TokenModel::Ident("for"@),
        TokenModel::Ident("tuple"@),
        TokenModel::Ident("in"@),
        TokenModel::Punct('&'),
        TokenModel::Ident("collection"@),
        TokenModel::Group(
            Delim::Brace,
            seq![
                TokenModel::Ident(v.identifier),
                TokenModel::Punct('.'),
                TokenModel::Ident("extend"@),
                TokenModel::Group(
                    Delim::Paren,
                    seq![
                        TokenModel::Punct('&'),
                        TokenModel::Ident("tuple"@),
                        TokenModel::Punct('.'),
                        TokenModel::Lit(dec_str(i)),
                    ],
                ),
                TokenModel::Punct(';'),
            ],
        ),
    ]
}

/// The extending loops of the first `k` of several outputs.
pub open spec fn multi_loops(outs: Seq<VarModel>, k: int) -> Seq<TokenModel>
    decreases k,
{
    if k <= 0 {
        Seq::empty()
    } else {
        multi_loops(outs, k - 1) + multi_loop(outs[k - 1], k - 1)
    }
}

/// The loop that extends a single output from each drained element:
/// `for elem in collection { name.extend(elem); }`.
pub open spec fn single_loop(v: VarModel) -> Seq<TokenModel> {
    seq![
        TokenModel::Ident("for"@),
        TokenModel::Ident("elem"@),
        TokenModel::Ident("in"@),
        TokenModel::Ident("collection"@),
        TokenModel::Group(
            Delim::Brace,
            seq![
                TokenModel::Ident(v.identifier),
                TokenModel::Punct('.'),
                TokenModel::Ident("extend"@),
                TokenModel::Group(Delim::Paren, seq![TokenModel::Ident("elem"@)]),
                TokenModel::Punct(';'),
            ],
        ),
    ]
}

/// The code that rebuilds the stream's output variables from the drained
/// results, in collected order.
pub open spec fn restore_model(sm: StreamModel) -> Seq<TokenModel> {
    restore_decls(sm.attrs.output) + (if sm.attrs.output.len() > 1 {
        multi_loops(sm.attrs.output, sm.attrs.output.len() as int)
    } else if sm.attrs.output.len() == 1 {
        single_loop(sm.attrs.output[0])
    } else {
        Seq::empty()
    })
}

/// Emits the code that restores the stream's output variables after the
/// pipeline drains.
#[verifier::rlimit(100)]
#[verifier::loop_isolation(false)]
pub fn restore_external_vars(spar_stream: &SparStream) -> (r: Vec<Token>)
    ensures
        tokens_model(r@) == restore_model(spar_stream@),
{
    let ghost outs = vars_model(spar_stream.attrs.output@);
    let mut code: Vec<Token> = Vec::new();
    let mut k: usize = 0;
    proof {
        assert(outs.take(0) =~= Seq::<VarModel>::empty());
        assert(tokens_model(code@) =~= restore_decls(outs.take(0)));
    }
    while k < spar_stream.attrs.output.len()
        invariant
            k <= spar_stream.attrs.output@.len(),
            tokens_model(code@) == restore_decls(outs.take(k as int)),
        decreases spar_stream.attrs.output@.len() - k,
    {
        push_ident(&mut code, "let");
        push_ident(&mut code, "mut");
        push_ident_string(&mut code, spar_stream.attrs.output[k].identifier.clone());
        push_punct(&mut code, ':');
        push_tokens(
            &mut code,
            crate::tokens::clone_tokens(&spar_stream.attrs.output[k].var_type.0),
        );
        push_punct(&mut code, '=');
        push_ident(&mut code, "Vec");
        push_punct(&mut code, ':');
        push_punct(&mut code, ':');
        push_ident(&mut code, "new");
        push_group(&mut code, Delim::Paren, Vec::new());
        push_punct(&mut code, ';');
        proof {
            assert(outs.take(k + 1).drop_last() =~= outs.take(k as int));
            assert(outs.take(k + 1).last() == outs[k as int]);
            assert(tokens_model(code@) =~~= restore_decls(outs.take(k + 1)));
        }
        k = k + 1;
    }
    proof {
        assert(outs.take(outs.len() as int) =~= outs);
    }
    if spar_stream.attrs.output.len() > 1 {
        let mut k: usize = 0;
        while k < spar_stream.attrs.output.len()
            invariant
                k <= spar_stream.attrs.output@.len(),
                tokens_model(code@) == restore_decls(outs) + multi_loops(outs, k as int),
            decreases spar_stream.attrs.output@.len() - k,
        {
            push_ident(&mut code, "for");
            push_ident(&mut code, "tuple");
            push_ident(&mut code, "in");
            push_punct(&mut code, '&');
            push_ident(&mut code, "collection");
            let mut body: Vec<Token> = Vec::new();
            proof {
                assert(tokens_model(body@) =~= Seq::<TokenModel>::empty());
            }
            push_ident_string(&mut body, spar_stream.attrs.output[k].identifier.clone());
            push_punct(&mut body, '.');
            push_ident(&mut body, "extend");
            let mut slot: Vec<Token> = Vec::new();
            proof {
                assert(tokens_model(slot@) =~= Seq::<TokenModel>::empty());
            }
            push_punct(&mut slot, '&');
            push_ident(&mut slot, "tuple");
            push_punct(&mut slot, '.');
            push_lit_string(&mut slot, usize_to_string(k));
            proof {
                assert(tokens_model(slot@) =~~= seq![
                    TokenModel::Punct('&'),
                    TokenModel::Ident("tuple"@),
                    TokenModel::Punct('.'),
                    TokenModel::Lit(dec_str(k as int)),
                ]);
            }
            push_group(&mut body, Delim::Paren, slot);
            push_punct(&mut body, ';');
            proof {
                assert(tokens_model(body@) =~~= seq![
                    TokenModel::Ident(outs[k as int].identifier),
                    TokenModel::Punct('.'),
                    TokenModel::Ident("extend"@),
                    TokenModel::Group(
                        Delim::Paren,
                        seq![
                            TokenModel::Punct('&'),
                            TokenModel::Ident("tuple"@),
                            TokenModel::Punct('.'),
                            TokenModel::Lit(dec_str(k as int)),
                        ],
                    ),
                    TokenModel::Punct(';'),
                ]);
            }
            push_group(&mut code, Delim::Brace, body);
            proof {
                assert(tokens_model(code@) =~~= restore_decls(outs) + multi_loops(outs, k + 1));
            }
            k = k + 1;
        }
    } else if spar_stream.attrs.output.len() == 1 {
        push_ident(&mut code, "for");
        push_ident(&mut code, "elem");
        push_ident(&mut code, "in");
        push_ident(&mut code, "collection");
        let mut body: Vec<Token> = Vec::new();
        proof {
            assert(tokens_model(body@) =~= Seq::<TokenModel>::empty());
        }
        push_ident_string(&mut body, spar_stream.attrs.output[0].identifier.clone());
        push_punct(&mut body, '.');
        push_ident(&mut body, "extend");
        let mut arg: Vec<Token> = Vec::new();
        proof {
            assert(tokens_model(arg@) =~= Seq::<TokenModel>::empty());
        }
        push_ident(&mut arg, "elem");
        push_group(&mut body, Delim::Paren, arg);
        push_punct(&mut body, ';');
        proof {
            assert(tokens_model(body@) =~~= seq![
                TokenModel::Ident(outs[0].identifier),
                TokenModel::Punct('.'),
                TokenModel::Ident("extend"@),
                TokenModel::Group(Delim::Paren, seq![TokenModel::Ident("elem"@)]),
                TokenModel::Punct(';'),
            ]);
        }
        push_group(&mut code, Delim::Brace, body);
        proof {
            assert(tokens_model(code@) =~~= restore_decls(outs) + single_loop(outs[0]));
        }
    }
    proof {
        assert(tokens_model(code@) =~~= restore_model(spar_stream@));
    }
    code
}

/// The whole generated code of a stream: the pipeline wiring followed by
/// the output restoration.
pub open spec fn codegen_model(sm: StreamModel, workers: Option<u32>) -> Option<Seq<TokenModel>> {
    match rust_spp_gen_model(sm, workers) {
        Some(g) => Some(g + restore_model(sm)),
        None => None,
    }
}

/// Generates the pipeline wiring code of a resolved stream.  `num_workers`
/// is the already-validated worker-count override that replaces every
/// fixed replica count.
pub fn codegen(spar_stream: SparStream, num_workers: Option<u32>) -> (r: Result<
    Vec<Token>,
    SparError,
>)
    ensures
        match r {
            Ok(o) => codegen_model(spar_stream@, num_workers) == Some(tokens_model(o@)),
            Err(_) => codegen_model(spar_stream@, num_workers) is None,
        },
{
    let restore = restore_external_vars(&spar_stream);
    let mut stream = spar_stream;
    let mut code = match rust_spp_gen(&mut stream, num_workers) {
        Ok(c) => c,
        Err(e) => {
            return Err(e);
        },
    };
    push_tokens(&mut code, restore);
    Ok(code)
}

} // verus!
