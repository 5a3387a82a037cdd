use spar_rust::parse::parse_spar_stages;
use spar_rust::spar_stream::{Replicate, SparAttrs, SparStage, SparVar, VarType};
use spar_rust::tokens::{Delim, Token};

fn ident(s: &str) -> Token {
    Token::Ident(s.to_string())
}

fn lit(s: &str) -> Token {
    Token::Lit(s.to_string())
}

fn punct(c: char) -> Token {
    Token::Punct(c)
}

fn group(d: Delim, ts: Vec<Token>) -> Token {
    Token::Group(d, ts)
}

fn var(name: &str, ty: &str) -> SparVar {
    SparVar::new(name.to_string(), VarType(vec![ident(ty)]))
}

fn make_vars(idents: &[&str], types: &[&str]) -> Vec<SparVar> {
    if idents.len() != types.len() {
        panic!("must have the same number of idents and types");
    }
    let mut vec = Vec::new();
    for (i, name) in idents.iter().enumerate() {
        vec.push(var(name, types[i]));
    }
    vec
}

/// `a += 1;` as tokens.
fn incr_a() -> Vec<Token> {
    vec![ident("a"), punct('+'), punct('='), lit("1"), punct(';')]
}

#[test]
fn top_level_code() {
    let stage = vec![
        ident("let"),
        ident("mut"),
        ident("a"),
        punct('='),
        lit("10"),
        punct(';'),
        ident("while"),
        ident("true"),
        group(Delim::Brace, {
            let mut ts = incr_a();
            ts.push(ident("STAGE"));
            ts.push(group(
                Delim::Paren,
                vec![group(
                    Delim::Brace,
                    vec![ident("let"), ident("b"), punct('='), lit("10"), punct(';')],
                )],
            ));
            ts.push(punct(';'));
            ts
        }),
    ];

    let expected_tokens = vec![
        ident("let"),
        ident("mut"),
        ident("a"),
        punct('='),
        lit("10"),
        punct(';'),
        ident("while"),
        ident("true"),
        group(Delim::Brace, {
            let mut ts = incr_a();
            ts.push(ident("__SPAR_MARKER__"));
            ts
        }),
    ];

    let (_, tokens) = parse_spar_stages(&stage).unwrap();
    assert_eq!(expected_tokens, tokens);
}

#[test]
fn stage_no_attributes() {
    // Put some dummy code just to make sure nothing will break
    let tokens = vec![
        ident("let"),
        ident("mut"),
        ident("a"),
        punct('='),
        lit("10"),
        punct(';'),
        ident("while"),
        ident("true"),
        group(Delim::Brace, incr_a()),
    ];
    let stage = vec![
        ident("STAGE"),
        group(Delim::Paren, vec![group(Delim::Brace, tokens.clone())]),
        punct(';'),
    ];

    let (mut spar_stages, _) = parse_spar_stages(&stage).unwrap();
    assert_eq!(spar_stages.len(), 1);

    let expected_attrs = SparAttrs::new(Vec::new(), Vec::new(), Replicate::SeqUnordered);
    assert_eq!(
        spar_stages.pop().unwrap(),
        SparStage::new(expected_attrs, tokens, 0)
    );
}

#[test]
fn stage_with_input() {
    let tokens = vec![ident("while"), ident("true"), group(Delim::Brace, incr_a())];
    let stage = vec![
        ident("STAGE"),
        group(
            Delim::Paren,
            vec![
                ident("INPUT"),
                group(Delim::Paren, vec![ident("a"), punct(':'), ident("u32")]),
                punct(','),
                group(Delim::Brace, tokens.clone()),
            ],
        ),
        punct(';'),
    ];

    let (mut spar_stages, _) = parse_spar_stages(&stage).unwrap();
    assert_eq!(spar_stages.len(), 1);

    let input = make_vars(&["a"], &["u32"]);
    let output = Vec::new();
    let replicate = Replicate::SeqUnordered;
    let expected_attrs = SparAttrs::new(input, output, replicate);
    assert_eq!(
        spar_stages.pop().unwrap(),
        SparStage::new(expected_attrs, tokens, 0)
    );
}

#[test]
fn stage_with_multiple_inputs() {
    let body = vec![
        ident("while"),
        ident("true"),
        group(
            Delim::Brace,
            vec![
                ident("a"),
                punct('+'),
                punct('='),
                lit("1"),
                punct(';'),
                ident("b"),
                punct('+'),
                punct('='),
                lit("2"),
                punct(','),
                ident("c"),
                punct('+'),
                punct('='),
                lit("3"),
                punct(';'),
            ],
        ),
    ];
    let stage = vec![
        ident("STAGE"),
        group(
            Delim::Paren,
            vec![
                ident("INPUT"),
                group(
                    Delim::Paren,
                    vec![
                        ident("a"),
                        punct(':'),
                        ident("u32"),
                        punct(','),
                        ident("b"),
                        punct(':'),
                        ident("u32"),
                        punct(','),
                        ident("c"),
                        punct(':'),
                        ident("u32"),
                    ],
                ),
                punct(','),
                group(Delim::Brace, body.clone()),
            ],
        ),
        punct(';'),
    ];

    let (mut spar_stages, _) = parse_spar_stages(&stage).unwrap();
    assert_eq!(spar_stages.len(), 1);

    let input = make_vars(&["a", "b", "c"], &["u32", "u32", "u32"]);
    let output = Vec::new();
    let replicate = Replicate::SeqUnordered;
    let expected_attrs = SparAttrs::new(input, output, replicate);
    assert_eq!(
        spar_stages.pop().unwrap(),
        SparStage::new(expected_attrs, body, 0)
    );
}

#[test]
fn stage_with_output() {
    let tokens = vec![ident("while"), ident("true"), group(Delim::Brace, incr_a())];
    let stage = vec![
        ident("STAGE"),
        group(
            Delim::Paren,
            vec![
                ident("OUTPUT"),
                group(Delim::Paren, vec![ident("a"), punct(':'), ident("u32")]),
                punct(','),
                group(Delim::Brace, tokens.clone()),
            ],
        ),
        punct(';'),
    ];

    let (mut spar_stages, _) = parse_spar_stages(&stage).unwrap();
    assert_eq!(spar_stages.len(), 1);

    let input = vec![];
    let output = make_vars(&["a"], &["u32"]);
    let replicate = Replicate::SeqUnordered;
    let expected_attrs = SparAttrs::new(input, output, replicate);
    assert_eq!(
        spar_stages.pop().unwrap(),
        SparStage::new(expected_attrs, tokens, 0)
    );
}

#[test]
fn stage_with_multiple_outputs() {
    let body = vec![
        ident("while"),
        ident("true"),
        group(
            Delim::Brace,
            vec![
                ident("a"),
                punct('+'),
                punct('='),
                lit("1"),
                punct(';'),
                ident("b"),
                punct('+'),
                punct('='),
                lit("2"),
                punct(','),
                ident("c"),
                punct('+'),
                punct('='),
                lit("3"),
                punct(';'),
            ],
        ),
    ];
    let stage = vec![
        ident("STAGE"),
        group(
            Delim::Paren,
            vec![
                ident("OUTPUT"),
                group(
                    Delim::Paren,
                    vec![
                        ident("a"),
                        punct(':'),
                        ident("u32"),
                        punct(','),
                        ident("b"),
                        punct(':'),
                        ident("u32"),
                        punct(','),
                        ident("c"),
                        punct(':'),
                        ident("u32"),
                    ],
                ),
                punct(','),
                group(Delim::Brace, body.clone()),
            ],
        ),
        punct(';'),
    ];

    let (mut spar_stages, _) = parse_spar_stages(&stage).unwrap();
    assert_eq!(spar_stages.len(), 1);

    let input = vec![];
    let output = make_vars(&["a", "b", "c"], &["u32", "u32", "u32"]);
    let replicate = Replicate::SeqUnordered;
    let expected_attrs = SparAttrs::new(input, output, replicate);
    assert_eq!(
        spar_stages.pop().unwrap(),
        SparStage::new(expected_attrs, body, 0)
    );
}

#[test]
fn stage_with_replicate() {
    let tokens = vec![
        ident("let"),
        ident("mut"),
        ident("a"),
        punct('='),
        lit("10"),
        punct(';'),
        ident("while"),
        ident("true"),
        group(Delim::Brace, incr_a()),
    ];
    let stage = vec![
        ident("STAGE"),
        group(
            Delim::Paren,
            vec![
                ident("REPLICATE"),
                punct('='),
                lit("5"),
                punct(','),
                group(Delim::Brace, tokens.clone()),
            ],
        ),
        punct(';'),
    ];

    let (mut spar_stages, _) = parse_spar_stages(&stage).unwrap();
    assert_eq!(spar_stages.len(), 1);

    let expected_attrs = SparAttrs::new(Vec::new(), Vec::new(), Replicate::Lit(5));
    assert_eq!(
        spar_stages.pop().unwrap(),
        SparStage::new(expected_attrs, tokens, 0)
    );
}

fn stage_decl(attrs: Vec<Token>) -> Vec<Token> {
    let mut args = attrs;
    args.push(group(Delim::Brace, vec![]));
    vec![ident("STAGE"), group(Delim::Paren, args), punct(';')]
}

fn io_attrs(inputs: &[(&str, &str)], outputs: &[(&str, &str)]) -> Vec<Token> {
    let mut attrs = Vec::new();
    if !inputs.is_empty() {
        attrs.push(ident("INPUT"));
        let mut list = Vec::new();
        for (i, (name, ty)) in inputs.iter().enumerate() {
            if i > 0 {
                list.push(punct(','));
            }
            list.push(ident(name));
            list.push(punct(':'));
            list.push(ident(ty));
        }
        attrs.push(group(Delim::Paren, list));
        attrs.push(punct(','));
    }
    if !outputs.is_empty() {
        attrs.push(ident("OUTPUT"));
        let mut list = Vec::new();
        for (i, (name, ty)) in outputs.iter().enumerate() {
            if i > 0 {
                list.push(punct(','));
            }
            list.push(ident(name));
            list.push(punct(':'));
            list.push(ident(ty));
        }
        attrs.push(group(Delim::Paren, list));
        attrs.push(punct(','));
    }
    attrs
}

#[test]
fn multiple_stages() {
    let mut stage = stage_decl(vec![]);
    stage.extend(stage_decl(io_attrs(&[("a", "u32")], &[("b", "u32")])));
    stage.extend(stage_decl(io_attrs(
        &[("c", "u32"), ("d", "u32")],
        &[("e", "u32"), ("f", "u32"), ("g", "u32")],
    )));
    stage.extend(stage_decl({
        let mut attrs = io_attrs(&[("h", "u32")], &[("i", "u32")]);
        attrs.push(ident("REPLICATE"));
        attrs.push(punct('='));
        attrs.push(lit("5"));
        attrs.push(punct(','));
        attrs
    }));

    let (mut spar_stages, _) = parse_spar_stages(&stage).unwrap();
    assert_eq!(spar_stages.len(), 4);
    spar_stages.reverse();

    let expected_attrs = SparAttrs::new(Vec::new(), Vec::new(), Replicate::SeqUnordered);
    assert_eq!(
        spar_stages.pop().unwrap(),
        SparStage::new(expected_attrs, Vec::new(), 0)
    );

    let input = make_vars(&["a"], &["u32"]);
    let output = make_vars(&["b"], &["u32"]);
    let replicate = Replicate::SeqUnordered;
    let expected_attrs = SparAttrs::new(input, output, replicate);
    assert_eq!(
        spar_stages.pop().unwrap(),
        SparStage::new(expected_attrs, Vec::new(), 0)
    );

    let input = make_vars(&["c", "d"], &["u32", "u32"]);
    let output = make_vars(&["e", "f", "g"], &["u32", "u32", "u32"]);
    let replicate = Replicate::SeqUnordered;
    let expected_attrs = SparAttrs::new(input, output, replicate);
    assert_eq!(
        spar_stages.pop().unwrap(),
        SparStage::new(expected_attrs, Vec::new(), 0)
    );

    let input = make_vars(&["h"], &["u32"]);
    let output = make_vars(&["i"], &["u32"]);
    let replicate = Replicate::Lit(5);
    let expected_attrs = SparAttrs::new(input, output, replicate);
    assert_eq!(
        spar_stages.pop().unwrap(),
        SparStage::new(expected_attrs, Vec::new(), 0)
    );
}

#[test]
fn complex_type() {
    let complex_type = vec![
        ident("Vec"),
        punct('<'),
        group(
            Delim::Paren,
            vec![
                ident("u32"),
                punct(','),
                punct('&'),
                punct('\''),
                ident("a"),
                ident("mut"),
                ident("u32"),
            ],
        ),
        punct('>'),
    ];
    let mut list = vec![ident("a"), punct(':')];
    list.extend(complex_type.clone());
    let stage = vec![
        ident("STAGE"),
        group(
            Delim::Paren,
            vec![
                ident("INPUT"),
                group(Delim::Paren, list),
                punct(','),
                group(Delim::Brace, vec![]),
            ],
        ),
        punct(';'),
    ];

    let (spar_stages, _) = parse_spar_stages(&stage).unwrap();
    assert_eq!(spar_stages[0].attrs.input[0].var_type.0, complex_type);
}

#[test]
#[should_panic]
fn input_cannot_be_a_literal() {
    let stage = vec![
        ident("STAGE"),
        group(
            Delim::Paren,
            vec![
                ident("INPUT"),
                group(Delim::Paren, vec![lit("10")]),
                punct(','),
                group(Delim::Brace, vec![]),
            ],
        ),
        punct(';'),
    ];

    let _spar_stages = parse_spar_stages(&stage).unwrap();
}

#[test]
#[should_panic]
fn input_cannot_be_empty() {
    let stage = vec![
        ident("STAGE"),
        group(
            Delim::Paren,
            vec![
                ident("INPUT"),
                group(Delim::Paren, vec![]),
                punct(','),
                group(Delim::Brace, vec![]),
            ],
        ),
        punct(';'),
    ];

    let _spar_stages = parse_spar_stages(&stage).unwrap();
}

#[test]
#[should_panic]
fn output_cannot_be_empty() {
    let stage = vec![
        ident("STAGE"),
        group(
            Delim::Paren,
            vec![
                ident("OUTPUT"),
                group(Delim::Paren, vec![]),
                punct(','),
                group(Delim::Brace, vec![]),
            ],
        ),
        punct(';'),
    ];

    let _spar_stages = parse_spar_stages(&stage).unwrap();
}

#[test]
#[should_panic]
fn forgot_comma() {
    let stage = vec![
        ident("STAGE"),
        group(
            Delim::Paren,
            vec![
                ident("REPLICATE"),
                punct('='),
                lit("4"),
                group(Delim::Brace, vec![]),
            ],
        ),
        punct(';'),
    ];

    let _spar_stages = parse_spar_stages(&stage).unwrap();
}

#[test]
#[should_panic]
fn should_not_have_code_after_stages() {
    let mut stage = vec![
        ident("STAGE"),
        group(
            Delim::Paren,
            vec![
                ident("REPLICATE"),
                punct('='),
                lit("4"),
                group(Delim::Brace, vec![]),
            ],
        ),
        punct(';'),
    ];
    stage.extend(vec![
        ident("let"),
        ident("a"),
        punct('='),
        lit("5"),
        punct(';'),
    ]);

    let _spar_stages = parse_spar_stages(&stage).unwrap();
}

#[test]
fn no_stage_passes_code_through() {
    let code = vec![
        ident("let"),
        ident("mut"),
        ident("a"),
        punct('='),
        lit("10"),
        punct(';'),
        ident("while"),
        ident("true"),
        group(Delim::Brace, incr_a()),
    ];
    let (stages, tokens) = parse_spar_stages(&code).unwrap();
    assert!(stages.is_empty());
    assert_eq!(code, tokens);
}

#[test]
fn stage_with_ordered() {
    let stage = vec![
        ident("STAGE"),
        group(
            Delim::Paren,
            vec![
                ident("ORDERED"),
                punct(','),
                group(Delim::Brace, vec![]),
            ],
        ),
        punct(';'),
    ];
    let (mut spar_stages, _) = parse_spar_stages(&stage).unwrap();
    assert_eq!(spar_stages.len(), 1);
    let expected_attrs = SparAttrs::new(Vec::new(), Vec::new(), Replicate::SeqOrdered);
    assert_eq!(
        spar_stages.pop().unwrap(),
        SparStage::new(expected_attrs, Vec::new(), 0)
    );
}

#[test]
fn replicate_zero_is_rejected() {
    let stage = stage_decl(vec![
        ident("REPLICATE"),
        punct('='),
        lit("0"),
        punct(','),
    ]);
    assert!(parse_spar_stages(&stage).is_err());
}

#[test]
fn duplicate_input_is_rejected() {
    let mut attrs = io_attrs(&[("a", "u32")], &[]);
    attrs.extend(io_attrs(&[("b", "u32")], &[]));
    let stage = stage_decl(attrs);
    assert!(parse_spar_stages(&stage).is_err());
}

#[test]
fn replicate_and_ordered_are_exclusive() {
    let stage = stage_decl(vec![
        ident("REPLICATE"),
        punct('='),
        lit("2"),
        punct(','),
        ident("ORDERED"),
        punct(','),
    ]);
    assert!(parse_spar_stages(&stage).is_err());
}

#[test]
fn unknown_attribute_is_rejected() {
    let stage = stage_decl(vec![ident("SPLIT"), punct(',')]);
    assert!(parse_spar_stages(&stage).is_err());
}

#[test]
fn missing_semicolon_is_rejected() {
    let stage = vec![
        ident("STAGE"),
        group(Delim::Paren, vec![group(Delim::Brace, vec![])]),
    ];
    assert!(parse_spar_stages(&stage).is_err());
}

#[test]
fn missing_type_at_end_is_rejected() {
    let stage = stage_decl(vec![
        ident("INPUT"),
        group(Delim::Paren, vec![ident("a"), punct(':')]),
        punct(','),
    ]);
    assert!(parse_spar_stages(&stage).is_err());
}
