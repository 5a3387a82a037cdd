//! General laws of the compiler, stated over the model functions that the
//! executable functions are specified against.

use vstd::prelude::*;

use crate::codegen::{
    collect_tail, contains_marker, end_tail, fields_join, gen_pipeline_model, gen_replicate_model,
    num_workers_model, replace_marker, replicate_count, rust_spp_gen_model, var_field,
};
use crate::parse::{
    comma_index, dec_value, is_dec_digits, lemma_comma_index, parse_args, parse_args_loop,
    parse_stage_list, parse_vars, split_stages, scan, ScanModel, StagePartModel,
};
use crate::spar_stream::{
    not_sent_by, resolve_states, resolved_stage, sent_by, AttrsModel, ReplicateModel, StageModel,
    StreamModel, VarModel,
};
use crate::tokens::{Delim, TokenModel};

verus! {

/// Whether the stage keyword occurs in the tokens, at top level or nested
/// under braces only: exactly the places where the splitter recognizes it.
pub open spec fn has_stage_kw(ts: Seq<TokenModel>) -> bool
    decreases ts,
{
    if ts.len() == 0 {
        false
    } else {
        let rest = has_stage_kw(ts.skip(1));
        match ts[0] {
            TokenModel::Ident(name) => name == "STAGE"@ || rest,
            TokenModel::Group(d, inner) => (d == Delim::Brace && has_stage_kw(inner)) || rest,
            _ => rest,
        }
    }
}

proof fn lemma_scan_no_stage(ts: Seq<TokenModel>, cb: bool)
    requires
        !has_stage_kw(ts),
    ensures
        scan(ts, cb) is NoStage,
    decreases ts,
{
    if ts.len() > 0 {
        lemma_scan_no_stage(ts.skip(1), true);
        match ts[0] {
            TokenModel::Group(d, inner) => {
                if d == Delim::Brace {
                    lemma_scan_no_stage(inner, cb);
                }
            },
            _ => {},
        }
    }
}

/// A description that declares no stage passes its driver code through
/// unchanged: splitting yields no stages, and the code comes back verbatim,
/// with no marker spliced in.
pub proof fn lemma_no_stage_passthrough(ts: Seq<TokenModel>)
    requires
        !has_stage_kw(ts),
    ensures
        split_stages(ts) == Some((Seq::<StagePartModel>::empty(), ts)),
{
    lemma_scan_no_stage(ts, false);
}

/// A single stage with no attributes resolves to empty input, empty
/// output, the default unordered sequential policy, and a body equal to
/// the source body verbatim.
pub proof fn lemma_single_plain_stage(body: Seq<TokenModel>)
    ensures
        ({
            let ts = seq![
                TokenModel::Ident("STAGE"@),
                TokenModel::Group(
                    Delim::Paren,
                    seq![TokenModel::Group(Delim::Brace, body)],
                ),
                TokenModel::Punct(';'),
            ];
            parse_stage_list(ts) == Some(
                seq![
                    StagePartModel {
                        attrs: AttrsModel {
                            input: Seq::empty(),
                            output: Seq::empty(),
                            replicate: ReplicateModel::SeqUnordered,
                        },
                        code: body,
                    },
                ],
            )
        }),
{
    let ts = seq![
        TokenModel::Ident("STAGE"@),
        TokenModel::Group(Delim::Paren, seq![TokenModel::Group(Delim::Brace, body)]),
        TokenModel::Punct(';'),
    ];
    let inner = seq![TokenModel::Group(Delim::Brace, body)];
    assert(parse_args(inner) == Some(
        (
            AttrsModel {
                input: Seq::<VarModel>::empty(),
                output: Seq::<VarModel>::empty(),
                replicate: ReplicateModel::SeqUnordered,
            },
            body,
        ),
    ));
    assert(ts.skip(3) =~= Seq::<TokenModel>::empty());
    let part = StagePartModel {
        attrs: AttrsModel {
            input: Seq::empty(),
            output: Seq::empty(),
            replicate: ReplicateModel::SeqUnordered,
        },
        code: body,
    };
    assert(parse_stage_list(Seq::<TokenModel>::empty()) == Some(Seq::<StagePartModel>::empty()));
    assert(parse_stage_list(ts) == Some(seq![part] + Seq::<StagePartModel>::empty()));
    assert(seq![part] + Seq::<StagePartModel>::empty() =~= seq![part]);
}

/// Whether a type text holds no top-level comma, so that it reads back
/// from a variable list exactly as it was written.
pub open spec fn comma_free(ts: Seq<TokenModel>) -> bool {
    forall|i: int| 0 <= i < ts.len() ==> ts[i] != TokenModel::Punct(',')
}

proof fn lemma_comma_index_of_concat(a: Seq<TokenModel>, b: Seq<TokenModel>)
    requires
        comma_free(a),
        b.len() > 0 && b[0] == TokenModel::Punct(','),
    ensures
        comma_index(a + b) == a.len(),
    decreases a.len(),
{
    if a.len() == 0 {
        assert(a + b =~= b);
    } else {
        assert((a + b)[0] == a[0]);
        assert(forall|i: int| 0 <= i < a.drop_first().len() ==> a.drop_first()[i] == a[i + 1]);
        lemma_comma_index_of_concat(a.drop_first(), b);
        assert((a + b).drop_first() =~= a.drop_first() + b);
    }
}

proof fn lemma_comma_index_all_free(a: Seq<TokenModel>)
    requires
        comma_free(a),
    ensures
        comma_index(a) == a.len(),
    decreases a.len(),
{
    if a.len() > 0 {
        assert(forall|i: int| 0 <= i < a.drop_first().len() ==> a.drop_first()[i] == a[i + 1]);
        lemma_comma_index_all_free(a.drop_first());
    }
}

/// Reading a rendered variable list back yields exactly the variables that
/// were rendered: declaration order and type text are preserved.  This
/// holds for every list whose type texts are non-empty and hold no
/// top-level comma — as every declared type does.
pub proof fn lemma_var_list_round_trip(vars: Seq<VarModel>)
    requires
        forall|k: int|
            0 <= k < vars.len() ==> (#[trigger] vars[k]).var_type.len() > 0 && comma_free(
                vars[k].var_type,
            ),
    ensures
        parse_vars(fields_join(vars)) == Some(vars),
    decreases vars.len(),
{
    if vars.len() == 0 {
    } else if vars.len() == 1 {
        let v = vars[0];
        let ts = fields_join(vars);
        assert(ts =~= seq![TokenModel::Ident(v.identifier), TokenModel::Punct(':')] + v.var_type);
        assert(ts.skip(2) =~= v.var_type);
        lemma_comma_index_all_free(v.var_type);
        let k = 2 + comma_index(ts.skip(2));
        assert(k == ts.len());
        assert(ts.subrange(2, k) =~= v.var_type);
        assert(parse_vars(ts) == Some(seq![v]));
        assert(seq![v] =~= vars);
    } else {
        let v = vars.first();
        let rest = vars.drop_first();
        lemma_fields_join_front(vars);
        let ts = fields_join(vars);
        let rest_ts = fields_join(rest);
        assert(ts == seq![TokenModel::Ident(v.identifier), TokenModel::Punct(':')] + v.var_type
            + seq![TokenModel::Punct(',')] + rest_ts);
        assert(ts[0] == TokenModel::Ident(v.identifier));
        assert(ts[1] == TokenModel::Punct(':'));
        assert(ts.skip(2) =~= v.var_type + (seq![TokenModel::Punct(',')] + rest_ts));
        lemma_comma_index_of_concat(v.var_type, seq![TokenModel::Punct(',')] + rest_ts);
        let k = 2 + comma_index(ts.skip(2));
        assert(k == 2 + v.var_type.len());
        assert(ts.len() == 2 + v.var_type.len() + 1 + rest_ts.len());
        assert(rest.len() >= 1);
        assert(rest[0].var_type.len() > 0);
        lemma_fields_join_len(rest);
        assert(k < ts.len());
        assert(ts.subrange(2, k) =~= v.var_type);
        assert(ts.skip(k + 1) =~= rest_ts);
        assert(forall|j: int|
            0 <= j < rest.len() ==> rest[j] == vars[j + 1]);
        lemma_var_list_round_trip(rest);
        assert(parse_vars(ts) == Some(seq![v] + rest));
        assert(seq![v] + rest =~= vars);
    }
}

proof fn lemma_fields_join_front(vars: Seq<VarModel>)
    requires
        vars.len() >= 2,
    ensures
        fields_join(vars) == seq![
            TokenModel::Ident(vars.first().identifier),
            TokenModel::Punct(':'),
        ] + vars.first().var_type + seq![TokenModel::Punct(',')] + fields_join(vars.drop_first()),
    decreases vars.len(),
{
    if vars.len() == 2 {
        assert(vars.drop_last() =~= seq![vars[0]]);
        assert(vars.drop_first() =~= seq![vars[1]]);
        assert(fields_join(vars) == fields_join(vars.drop_last()) + seq![TokenModel::Punct(',')]
            + var_field(vars.last()));
        assert(fields_join(seq![vars[0]]) == var_field(vars[0]));
        assert(fields_join(seq![vars[1]]) == var_field(vars[1]));
        assert(fields_join(vars) =~= seq![
            TokenModel::Ident(vars.first().identifier),
            TokenModel::Punct(':'),
        ] + vars.first().var_type + seq![TokenModel::Punct(',')] + fields_join(vars.drop_first()));
    } else {
        lemma_fields_join_front(vars.drop_last());
        assert(vars.drop_last().first() == vars.first());
        assert(vars.drop_last().drop_first() =~= vars.drop_first().drop_last());
        assert(vars.drop_first().len() >= 2);
        assert(fields_join(vars.drop_first()) == fields_join(vars.drop_first().drop_last())
            + seq![TokenModel::Punct(',')] + var_field(vars.drop_first().last()));
        assert(vars.drop_first().last() == vars.last());
        assert(fields_join(vars) == fields_join(vars.drop_last()) + seq![TokenModel::Punct(',')]
            + var_field(vars.last()));
        assert(fields_join(vars) =~= seq![
            TokenModel::Ident(vars.first().identifier),
            TokenModel::Punct(':'),
        ] + vars.first().var_type + seq![TokenModel::Punct(',')] + fields_join(vars.drop_first()));
    }
}

proof fn lemma_fields_join_len(vars: Seq<VarModel>)
    requires
        vars.len() >= 1,
    ensures
        fields_join(vars).len() >= 2,
    decreases vars.len(),
{
    if vars.len() > 1 {
        lemma_fields_join_len(vars.drop_last());
    }
}

/// After dependency resolution, a stage's state is exactly its declared
/// input minus the previous stage's declared output, and its effective
/// input is exactly the declared input that the previous stage supplies;
/// both with set semantics over variable identity.
pub proof fn lemma_resolution(stages: Seq<StageModel>, k: int)
    requires
        0 < k < stages.len(),
    ensures
        ({
            let r = resolve_states(stages)[k];
            let declared = stages[k].attrs.input;
            let prev_out = stages[k - 1].attrs.output;
            &&& r.state == declared.filter(not_sent_by(prev_out))
            &&& r.attrs.input == declared.filter(sent_by(prev_out))
            &&& r.attrs.output == stages[k].attrs.output
            &&& forall|v: VarModel|
                #[trigger] r.attrs.input.contains(v) <==> declared.contains(v)
                    && prev_out.contains(v)
            &&& forall|v: VarModel|
                #[trigger] r.state.contains(v) <==> declared.contains(v) && !prev_out.contains(v)
        }),
{
    let r = resolve_states(stages)[k];
    let declared = stages[k].attrs.input;
    let prev_out = stages[k - 1].attrs.output;
    assert(r == resolved_stage(stages, k));
    broadcast use vstd::seq_lib::group_filter_ensures;

    let fin = declared.filter(sent_by(prev_out));
    let fst = declared.filter(not_sent_by(prev_out));
    assert forall|v: VarModel| #[trigger] r.attrs.input.contains(v) implies declared.contains(v)
        && prev_out.contains(v) by {
        assert(fin.contains(v));
        declared.lemma_filter_contains_rev(sent_by(prev_out), v);
        let i = choose|i: int| 0 <= i < fin.len() && fin[i] == v;
        assert(sent_by(prev_out)(fin[i]));
    }
    assert forall|v: VarModel| declared.contains(v) && prev_out.contains(v) implies
        #[trigger] r.attrs.input.contains(v) by {
        let i = choose|i: int| 0 <= i < declared.len() && declared[i] == v;
        assert(sent_by(prev_out)(declared[i]));
        assert(fin.contains(declared[i]));
    }
    assert forall|v: VarModel| #[trigger] r.state.contains(v) implies declared.contains(v)
        && !prev_out.contains(v) by {
        assert(fst.contains(v));
        declared.lemma_filter_contains_rev(not_sent_by(prev_out), v);
        let i = choose|i: int| 0 <= i < fst.len() && fst[i] == v;
        assert(not_sent_by(prev_out)(fst[i]));
    }
    assert forall|v: VarModel| declared.contains(v) && !prev_out.contains(v) implies
        #[trigger] r.state.contains(v) by {
        let i = choose|i: int| 0 <= i < declared.len() && declared[i] == v;
        assert(not_sent_by(prev_out)(declared[i]));
        assert(fst.contains(declared[i]));
    }
}

/// A declared fixed replica count resolves to itself absent an override; a
/// present override replaces it; and a named count is never overridden.
/// An override that is not a positive decimal number that fits the count
/// type validates to nothing, and the caller falls back to the literal.
pub proof fn lemma_replicate_override(n: u32, w: u32, name: Seq<char>, bad: Seq<char>)
    requires
        !(is_dec_digits(bad) && 0 < dec_value(bad) && dec_value(bad) <= u32::MAX),
    ensures
        replicate_count(n, None) == n,
        replicate_count(n, Some(w)) == w,
        gen_replicate_model(ReplicateModel::Var(name), Some(w)) == gen_replicate_model(
            ReplicateModel::Var(name),
            None,
        ),
        num_workers_model(bad) is None,
{
}

/// An empty `INPUT()` attribute is rejected, whatever follows it.
pub proof fn lemma_empty_input_rejected(
    rest: Seq<TokenModel>,
    output: Seq<VarModel>,
    rep: ReplicateModel,
)
    ensures
        parse_args_loop(
            seq![
                TokenModel::Ident("INPUT"@),
                TokenModel::Group(Delim::Paren, Seq::empty()),
            ] + rest,
            Seq::empty(),
            output,
            rep,
        ) is None,
{
    let ts = seq![
        TokenModel::Ident("INPUT"@),
        TokenModel::Group(Delim::Paren, Seq::empty()),
    ] + rest;
    assert(ts[0] == TokenModel::Ident("INPUT"@));
    assert(ts[1] == TokenModel::Group(Delim::Paren, Seq::<TokenModel>::empty()));
    assert(parse_vars(Seq::<TokenModel>::empty()) == Some(Seq::<VarModel>::empty()));
}

/// An empty `OUTPUT()` attribute is rejected, whatever follows it.
pub proof fn lemma_empty_output_rejected(
    rest: Seq<TokenModel>,
    input: Seq<VarModel>,
    rep: ReplicateModel,
)
    ensures
        parse_args_loop(
            seq![
                TokenModel::Ident("OUTPUT"@),
                TokenModel::Group(Delim::Paren, Seq::empty()),
            ] + rest,
            input,
            Seq::empty(),
            rep,
        ) is None,
{
    let ts = seq![
        TokenModel::Ident("OUTPUT"@),
        TokenModel::Group(Delim::Paren, Seq::empty()),
    ] + rest;
    assert(ts[0] == TokenModel::Ident("OUTPUT"@));
    assert(ts[1] == TokenModel::Group(Delim::Paren, Seq::<TokenModel>::empty()));
    assert(parse_vars(Seq::<TokenModel>::empty()) == Some(Seq::<VarModel>::empty()));
    reveal_strlit("INPUT");
    reveal_strlit("OUTPUT");
    assert(("OUTPUT"@).len() == 6 && ("INPUT"@).len() == 5);
}

/// A `REPLICATE = n` attribute not followed by a comma is rejected: the
/// body block may not follow it directly.
pub proof fn lemma_missing_comma_rejected(lit: Seq<char>, body: Seq<TokenModel>)
    requires
        is_dec_digits(lit),
        0 < dec_value(lit) <= u32::MAX,
    ensures
        parse_args(
            seq![
                TokenModel::Ident("REPLICATE"@),
                TokenModel::Punct('='),
                TokenModel::Lit(lit),
                TokenModel::Group(Delim::Brace, body),
            ],
        ) is None,
{
    let ts = seq![
        TokenModel::Ident("REPLICATE"@),
        TokenModel::Punct('='),
        TokenModel::Lit(lit),
        TokenModel::Group(Delim::Brace, body),
    ];
    reveal_strlit("REPLICATE");
    reveal_strlit("INPUT");
    reveal_strlit("OUTPUT");
    assert(("REPLICATE"@).len() == 9 && ("INPUT"@).len() == 5 && ("OUTPUT"@).len() == 6);
}

/// Tokens after the final declared stage are rejected: after a complete
/// `STAGE(...);` the input must either end or declare another stage.
pub proof fn lemma_code_after_stages_rejected(body: Seq<TokenModel>, t: TokenModel, rest: Seq<
    TokenModel,
>)
    requires
        !(t == TokenModel::Ident("STAGE"@)),
    ensures
        parse_stage_list(
            seq![
                TokenModel::Ident("STAGE"@),
                TokenModel::Group(
                    Delim::Paren,
                    seq![TokenModel::Group(Delim::Brace, body)],
                ),
                TokenModel::Punct(';'),
            ] + seq![t] + rest,
        ) is None,
{
    let ts = seq![
        TokenModel::Ident("STAGE"@),
        TokenModel::Group(Delim::Paren, seq![TokenModel::Group(Delim::Brace, body)]),
        TokenModel::Punct(';'),
    ] + seq![t] + rest;
    assert(ts[0] == TokenModel::Ident("STAGE"@));
    assert(ts[1] == TokenModel::Group(
        Delim::Paren,
        seq![TokenModel::Group(Delim::Brace, body)],
    ));
    assert(ts[2] == TokenModel::Punct(';'));
    let tail = ts.skip(3);
    assert(tail =~= seq![t] + rest);
    assert(tail[0] == t);
    assert(parse_stage_list(tail) is None);
}

/// A stream that declares outputs drains through an ordered collection,
/// whose results the emitted restoration code hands back; one that declares
/// none signals the end of input and waits for the pipeline to finish.
pub proof fn lemma_drain_decision(sm: StreamModel, workers: Option<u32>)
    requires
        rust_spp_gen_model(sm, workers) is Some,
    ensures
        ({
            let code = rust_spp_gen_model(sm, workers)->Some_0;
            &&& sm.attrs.output.len() > 0 ==> code.len() >= 8 && code.subrange(
                code.len() - 8,
                code.len() as int,
            ) == collect_tail()
            &&& sm.attrs.output.len() == 0 ==> code.len() >= 5 && code.subrange(
                code.len() - 5,
                code.len() as int,
            ) == end_tail()
        }),
{
    let code = rust_spp_gen_model(sm, workers)->Some_0;
    if sm.attrs.output.len() > 0 {
        assert(code.subrange(code.len() - 8, code.len() as int) =~= collect_tail());
    } else {
        assert(code.subrange(code.len() - 5, code.len() as int) =~= end_tail());
    }
}

/// The pipeline declaration carries the trailing order-restoring collection
/// node exactly when the stream declares any output, so the collection node
/// and the collecting drain always pair.
pub proof fn lemma_collection_node_iff_output(outputs: Seq<VarModel>, gen: Seq<TokenModel>)
    ensures
        outputs.len() > 0 ==> gen_pipeline_model(outputs, gen)[9] == TokenModel::Group(
            Delim::Bracket,
            gen + seq![
                TokenModel::Punct(','),
                TokenModel::Ident("collect_ordered"@),
                TokenModel::Punct('!'),
                TokenModel::Group(Delim::Paren, Seq::empty()),
            ],
        ),
        outputs.len() == 0 ==> gen_pipeline_model(outputs, gen)[9] == TokenModel::Group(
            Delim::Bracket,
            gen,
        ),
{
}

proof fn lemma_contains_marker_concat(a: Seq<TokenModel>, b: Seq<TokenModel>)
    ensures
        contains_marker(a + b) == (contains_marker(a) || contains_marker(b)),
    decreases a,
{
    if a.len() == 0 {
        assert(a + b =~= b);
    } else {
        assert((a + b)[0] == a[0]);
        assert((a + b).skip(1) =~= a.skip(1) + b);
        lemma_contains_marker_concat(a.skip(1), b);
    }
}

/// Splicing the submission call into the driver code replaces every marker:
/// as long as the replacement itself holds none, none survives in the
/// emitted code.
pub proof fn lemma_marker_fully_replaced(ts: Seq<TokenModel>, repl: Seq<TokenModel>)
    requires
        !contains_marker(repl),
    ensures
        !contains_marker(replace_marker(ts, repl)),
    decreases ts,
{
    assert(!contains_marker(Seq::<TokenModel>::empty()));
    if ts.len() > 0 {
        lemma_marker_fully_replaced(ts.skip(1), repl);
        let rest = replace_marker(ts.skip(1), repl);
        match ts[0] {
            TokenModel::Ident(name) => {
                if name == "__SPAR_MARKER__"@ {
                    lemma_contains_marker_concat(repl, rest);
                } else {
                    lemma_contains_marker_concat(seq![ts[0]], rest);
                    assert(seq![ts[0]].skip(1) =~= Seq::<TokenModel>::empty());
                }
            },
            TokenModel::Group(d, inner) => {
                lemma_marker_fully_replaced(inner, repl);
                let g = TokenModel::Group(d, replace_marker(inner, repl));
                lemma_contains_marker_concat(seq![g], rest);
                assert(seq![g].skip(1) =~= Seq::<TokenModel>::empty());
            },
            _ => {
                lemma_contains_marker_concat(seq![ts[0]], rest);
                assert(seq![ts[0]].skip(1) =~= Seq::<TokenModel>::empty());
            },
        }
    }
}

} // verus!
