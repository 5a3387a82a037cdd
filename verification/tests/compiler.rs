use spar_rust::codegen::{codegen, gen_replicate, parse_num_workers, usize_to_string};
use spar_rust::spar_stream::{Replicate, SparStream, SparVar, VarType};
use spar_rust::to_stream;
use spar_rust::tokens::{Delim, Token};

fn ident(s: &str) -> Token {
    Token::Ident(s.to_string())
}

fn lit(s: &str) -> Token {
    Token::Lit(s.to_string())
}

fn punct(c: char) -> Token {
    Token::Punct(c)
}

fn group(d: Delim, ts: Vec<Token>) -> Token {
    Token::Group(d, ts)
}

fn contains_ident(ts: &[Token], name: &str) -> bool {
    ts.iter().any(|t| match t {
        Token::Ident(s) => s == name,
        Token::Group(_, inner) => contains_ident(inner, name),
        _ => false,
    })
}

fn contains_lit(ts: &[Token], text: &str) -> bool {
    ts.iter().any(|t| match t {
        Token::Lit(s) => s == text,
        Token::Group(_, inner) => contains_lit(inner, text),
        _ => false,
    })
}

fn vec_u8_type() -> Vec<Token> {
    vec![ident("Vec"), punct('<'), ident("u8"), punct('>')]
}

/// `INPUT(acc: Vec<u8>), { STAGE(INPUT(x: u32, acc: Vec<u8>), OUTPUT(x: u32),
/// REPLICATE = 5, {}); STAGE(INPUT(x: u32, acc: Vec<u8>), {}); }`
fn replicated_description() -> Vec<Token> {
    let mut inner1 = vec![ident("x"), punct(':'), ident("u32"), punct(',')];
    inner1.push(ident("acc"));
    inner1.push(punct(':'));
    inner1.extend(vec_u8_type());
    let stage1 = vec![
        ident("STAGE"),
        group(
            Delim::Paren,
            vec![
                ident("INPUT"),
                group(Delim::Paren, inner1.clone()),
                punct(','),
                ident("OUTPUT"),
                group(Delim::Paren, vec![ident("x"), punct(':'), ident("u32")]),
                punct(','),
                ident("REPLICATE"),
                punct('='),
                lit("5"),
                punct(','),
                group(Delim::Brace, vec![]),
            ],
        ),
        punct(';'),
    ];
    let stage2 = vec![
        ident("STAGE"),
        group(
            Delim::Paren,
            vec![
                ident("INPUT"),
                group(Delim::Paren, inner1),
                punct(','),
                group(Delim::Brace, vec![]),
            ],
        ),
        punct(';'),
    ];
    let mut body = stage1;
    body.extend(stage2);
    let mut acc_decl = vec![ident("acc"), punct(':')];
    acc_decl.extend(vec_u8_type());
    vec![
        ident("INPUT"),
        group(Delim::Paren, acc_decl),
        punct(','),
        group(Delim::Brace, body),
    ]
}

#[test]
fn resolution_and_promotion() {
    let stream = SparStream::try_from(&replicated_description()).unwrap();
    assert_eq!(stream.stages.len(), 2);
    // the first stage keeps both declared inputs
    assert_eq!(stream.stages[0].attrs.input.len(), 2);
    assert_eq!(stream.stages[0].id, 1);
    assert_eq!(stream.stages[1].id, 2);
    // the second stage's `x` is sent by the first; `acc` becomes state
    assert_eq!(
        stream.stages[1].attrs.input,
        vec![SparVar::new("x".to_string(), VarType(vec![ident("u32")]))]
    );
    assert_eq!(
        stream.stages[1].state,
        vec![SparVar::new("acc".to_string(), VarType(vec_u8_type()))]
    );
    // `acc` is external and collection-typed: it is promoted to the last
    // stage's output and to the stream's output
    assert_eq!(
        stream.stages[1].attrs.output,
        vec![SparVar::new("acc".to_string(), VarType(vec_u8_type()))]
    );
    assert_eq!(
        stream.attrs.output,
        vec![SparVar::new("acc".to_string(), VarType(vec_u8_type()))]
    );
    let acc = SparVar::new("acc".to_string(), VarType(vec_u8_type()));
    let x = SparVar::new("x".to_string(), VarType(vec![ident("u32")]));
    assert!(stream.is_external(&acc));
    assert!(!stream.is_external(&x));
}

#[test]
fn replicate_five_without_override() {
    let stream = SparStream::try_from(&replicated_description()).unwrap();
    let code = codegen(stream, None).unwrap();
    assert!(contains_lit(&code, "5"));
    assert!(!contains_lit(&code, "3"));
}

#[test]
fn replicate_five_with_override() {
    let stream = SparStream::try_from(&replicated_description()).unwrap();
    let code = codegen(stream, Some(3)).unwrap();
    assert!(contains_lit(&code, "3"));
    assert!(!contains_lit(&code, "5"));
}

#[test]
fn invalid_override_values_are_rejected() {
    assert_eq!(parse_num_workers(&"8".to_string()), Some(8));
    assert_eq!(parse_num_workers(&"0".to_string()), None);
    assert_eq!(parse_num_workers(&"abc".to_string()), None);
    assert_eq!(parse_num_workers(&"".to_string()), None);
    assert_eq!(parse_num_workers(&"4294967296".to_string()), None);
    assert_eq!(parse_num_workers(&"4294967295".to_string()), Some(u32::MAX));
}

#[test]
fn gen_replicate_resolves_counts() {
    assert_eq!(
        gen_replicate(&Replicate::Lit(5), None),
        vec![lit("5"), ident("as"), ident("i32")]
    );
    assert_eq!(
        gen_replicate(&Replicate::Lit(5), Some(3)),
        vec![lit("3"), ident("as"), ident("i32")]
    );
    assert_eq!(
        gen_replicate(&Replicate::Var("n".to_string()), Some(3)),
        vec![ident("n"), ident("as"), ident("i32")]
    );
}

#[test]
fn numbers_render_in_decimal() {
    assert_eq!(usize_to_string(0), "0");
    assert_eq!(usize_to_string(7), "7");
    assert_eq!(usize_to_string(10), "10");
    assert_eq!(usize_to_string(905), "905");
}

#[test]
fn stream_with_output_collects_in_order() {
    let code = to_stream(&replicated_description(), None).unwrap();
    // the stream has outputs: an ordered collection node and the
    // restoration code are emitted
    assert!(contains_ident(&code, "collect_ordered"));
    assert!(contains_ident(&code, "collection"));
    assert!(contains_ident(&code, "extend"));
    assert!(contains_ident(&code, "SparStage1"));
    assert!(contains_ident(&code, "SparStage2"));
    assert!(!contains_ident(&code, "__SPAR_MARKER__"));
    assert!(!contains_ident(&code, "end_and_wait"));
}

/// `{ let x = 10; STAGE(INPUT(x: u32), {}); }`
fn driver_description() -> Vec<Token> {
    let body = vec![
        ident("let"),
        ident("x"),
        punct('='),
        lit("10"),
        punct(';'),
        ident("STAGE"),
        group(
            Delim::Paren,
            vec![
                ident("INPUT"),
                group(Delim::Paren, vec![ident("x"), punct(':'), ident("u32")]),
                punct(','),
                group(Delim::Brace, vec![]),
            ],
        ),
        punct(';'),
    ];
    vec![group(Delim::Brace, body)]
}

#[test]
fn driver_code_becomes_dispatcher() {
    let code = to_stream(&driver_description(), None).unwrap();
    // the driver stage turns into the dispatcher: the marker is replaced by
    // the submission call
    assert!(contains_ident(&code, "post"));
    assert!(!contains_ident(&code, "__SPAR_MARKER__"));
    // no declared output: the pipeline runs to completion without a
    // collection step
    assert!(contains_ident(&code, "end_and_wait"));
    assert!(!contains_ident(&code, "collect_ordered"));
}

#[test]
fn empty_stream_is_rejected() {
    // a description whose body holds neither driver code nor stages has
    // nothing to generate
    let description = vec![group(Delim::Brace, vec![])];
    assert!(to_stream(&description, None).is_err());
}

#[test]
fn untraceable_state_is_rejected() {
    // the second stage consumes `y`, which neither the first stage sends
    // nor the stream declares
    let stage1 = vec![
        ident("STAGE"),
        group(
            Delim::Paren,
            vec![
                ident("OUTPUT"),
                group(Delim::Paren, vec![ident("x"), punct(':'), ident("u32")]),
                punct(','),
                group(Delim::Brace, vec![]),
            ],
        ),
        punct(';'),
    ];
    let stage2 = vec![
        ident("STAGE"),
        group(
            Delim::Paren,
            vec![
                ident("INPUT"),
                group(Delim::Paren, vec![ident("y"), punct(':'), ident("u32")]),
                punct(','),
                group(Delim::Brace, vec![]),
            ],
        ),
        punct(';'),
    ];
    let mut body = stage1;
    body.extend(stage2);
    let description = vec![group(Delim::Brace, body)];
    assert!(SparStream::try_from(&description).is_err());
}

/// `OUTPUT(result: Vec<u8>), { STAGE(INPUT(a: u32), {}); }`
fn sequential_sink_with_stream_output() -> Vec<Token> {
    let stage = vec![
        ident("STAGE"),
        group(
            Delim::Paren,
            vec![
                ident("INPUT"),
                group(Delim::Paren, vec![ident("a"), punct(':'), ident("u32")]),
                punct(','),
                group(Delim::Brace, vec![]),
            ],
        ),
        punct(';'),
    ];
    let mut result_decl = vec![ident("result"), punct(':')];
    result_decl.extend(vec_u8_type());
    vec![
        ident("OUTPUT"),
        group(Delim::Paren, result_decl),
        punct(','),
        group(Delim::Brace, stage),
    ]
}

#[test]
fn declared_output_always_gets_a_collector() {
    // the stream declares an output even though its only (sequential) stage
    // declares none: the ordered collection node must pair with the
    // collecting drain
    let code = to_stream(&sequential_sink_with_stream_output(), None).unwrap();
    assert!(contains_ident(&code, "collect_ordered"));
    assert!(contains_ident(&code, "collection"));
    assert!(!contains_ident(&code, "end_and_wait"));
}

#[test]
fn no_output_means_no_collector_even_when_replicated() {
    // `{ STAGE(INPUT(x: u32), REPLICATE = 2, {}); }`: the stream declares
    // no output, so the pipeline runs to completion with no collection
    // step, replicated last stage or not
    let stage = vec![
        ident("STAGE"),
        group(
            Delim::Paren,
            vec![
                ident("INPUT"),
                group(Delim::Paren, vec![ident("x"), punct(':'), ident("u32")]),
                punct(','),
                ident("REPLICATE"),
                punct('='),
                lit("2"),
                punct(','),
                group(Delim::Brace, vec![]),
            ],
        ),
        punct(';'),
    ];
    let description = vec![group(Delim::Brace, stage)];
    let code = to_stream(&description, None).unwrap();
    assert!(!contains_ident(&code, "collect_ordered"));
    assert!(contains_ident(&code, "end_and_wait"));
}
