use infinite_errors::parameters::{MacroArgs, ParseError, ReturnLogOptions, ValueProblem};
use infinite_errors::text::Describe;
use infinite_errors::tokens::{tokenize, Lexeme, Token};

#[test]
fn default_parameters() {
    let parsed_args: MacroArgs = MacroArgs::parse(r#""#).unwrap();
    assert_eq!(parsed_args, MacroArgs::default());
}

#[test]
fn typical_usage() {
    let parsed_args: MacroArgs = MacroArgs::parse(r#"err, skip(hello, world), a=b"#).unwrap();
    assert_eq!(parsed_args.log_return, ReturnLogOptions::LogErrOnly);
    assert_eq!(parsed_args.log_parameters, true);
    assert_eq!(parsed_args.parameters_to_skip, vec!["hello", "world"]);
    assert_eq!(
        parsed_args.custom_params,
        vec![("a".to_string(), "b".to_string())]
    );
}

#[test]
fn identifier_parsing_scenarios() {
    let parsed_args: MacroArgs = MacroArgs::parse(r#"err"#).unwrap();
    assert_eq!(
        parsed_args.log_return,
        ReturnLogOptions::LogErrOnly,
        "Unexpected `log_return`"
    );

    let parsed_args: MacroArgs = MacroArgs::parse(r#"skip_all, err"#).unwrap();
    assert_eq!(
        parsed_args.log_return,
        ReturnLogOptions::LogErrOnly,
        "Unexpected `log_return`"
    );
    assert!(
        !parsed_args.log_parameters,
        "`skip_all` should simply cause the logging of parameters to be disabled"
    );

    let parsed_args: MacroArgs = MacroArgs::parse(r#"err, skip_all"#).unwrap();
    assert_eq!(
        parsed_args.log_return,
        ReturnLogOptions::LogErrOnly,
        "Unexpected `log_return`"
    );
    assert!(!parsed_args.log_parameters);

    let parsed_args: MacroArgs = MacroArgs::parse(r#"skip_all"#).unwrap();
    assert_eq!(
        parsed_args.log_return,
        ReturnLogOptions::Skip,
        "Unexpected `log_return`"
    );
    assert!(!parsed_args.log_parameters);

    let parsed_args: MacroArgs = MacroArgs::parse(r#"err,skip()"#).unwrap();
    assert_eq!(
        parsed_args.log_return,
        ReturnLogOptions::LogErrOnly,
        "Unexpected `log_return`"
    );
    assert!(parsed_args.log_parameters);

    let parsed_args: MacroArgs = MacroArgs::parse(r#"ret"#).unwrap();
    assert_eq!(
        parsed_args.log_return,
        ReturnLogOptions::LogNonFallible,
        "Unexpected `log_return`"
    );
    assert!(parsed_args.log_parameters);

    let parsed_args: MacroArgs = MacroArgs::parse(r#"ok"#).unwrap();
    assert_eq!(
        parsed_args.log_return,
        ReturnLogOptions::LogResult,
        "Unexpected `log_return`"
    );
    assert!(parsed_args.log_parameters);
}

fn assert_identifier_combination(params: &str) {
    let parsed_args: Result<MacroArgs, ParseError> = MacroArgs::parse(params);
    assert!(
        parsed_args.is_err(),
        "Parsing the parameter combination '{params}' should not have succeeded"
    );
    assert_eq!(parsed_args.unwrap_err().message(), "Invalid identifier combination: only one of `err`, `ok` and `ret` may be specified", "Unexpected error message");
}

#[test]
fn invalid_identifier_combinations() {
    assert_identifier_combination(r#"ok,err"#);
    assert_identifier_combination(r#"err,ok"#);
    assert_identifier_combination(r#"ret,ok"#);
    assert_identifier_combination(r#"ok,ret"#);
    assert_identifier_combination(r#"err,ret"#);
    assert_identifier_combination(r#"ret,err"#);
}

fn assert_skip_combination(params: &str) {
    let parsed_args: Result<MacroArgs, ParseError> = MacroArgs::parse(params);
    assert!(
        parsed_args.is_err(),
        "Parsing the parameter combination '{params}' should not have succeeded"
    );
    assert_eq!(parsed_args.unwrap_err().message(), "Invalid `skip` / `skip_all` combination: only one them may specified -- and just once", "Unexpected error message");
}

#[test]
fn invalid_skip_combinations() {
    assert_skip_combination(r#"skip(),skip_all"#);
    assert_skip_combination(r#"skip_all,skip()"#);
    assert_skip_combination(r#"skip(a),skip_all"#);
    assert_skip_combination(r#"skip_all,skip(a)"#);
    assert_skip_combination(r#"skip_all,skip_all"#);
    assert_skip_combination(r#"skip(a),skip()"#);
}

#[test]
fn invalid_standalone_identifier() {
    let parsed_args: Result<MacroArgs, ParseError> = MacroArgs::parse(r#"nonexistingparam"#);
    assert!(parsed_args.is_err());
    assert_eq!(
        parsed_args.unwrap_err().message(),
        r#"Unknown identifier parameter 'nonexistingparam' -- known ones are: 'err', 'ok', 'ret', 'skip_all'"#
    );
}

#[test]
fn invalid_func_identifier() {
    let parsed_args: Result<MacroArgs, ParseError> = MacroArgs::parse(r#"nonexistingfunc()"#);
    assert!(parsed_args.is_err());
    assert_eq!(
        parsed_args.unwrap_err().message(),
        r#"Unknown func parameter 'nonexistingfunc' -- known one is: 'skip'"#
    );
}

#[test]
fn a_text_that_does_not_lex_is_refused() {
    let outcome = MacroArgs::parse("skip(a");
    assert_eq!(outcome, Err(ParseError::Lex));
    assert_eq!(
        outcome.unwrap_err().message(),
        "cannot parse string into token stream"
    );
    assert!(tokenize("\"open").is_none());
}

#[test]
fn an_item_must_start_with_an_identifier() {
    let outcome = MacroArgs::parse("err, 42, ok");
    assert_eq!(
        outcome,
        Err(ParseError::IdentifierExpected {
            rest: "42 , ok".to_string()
        })
    );
    assert_eq!(
        outcome.unwrap_err().message(),
        "Can't the reminder of the parameters. An Identifier was expected next: 42 , ok"
    );
}

#[test]
fn a_keyword_is_no_identifier() {
    assert_eq!(
        MacroArgs::parse("fn"),
        Err(ParseError::IdentifierExpected {
            rest: "fn".to_string()
        })
    );
    assert_eq!(
        MacroArgs::parse("_"),
        Err(ParseError::IdentifierExpected {
            rest: "_".to_string()
        })
    );
    let parsed = MacroArgs::parse("a=r#fn").unwrap();
    assert_eq!(
        parsed.custom_params,
        vec![("a".to_string(), "r#fn".to_string())]
    );
}

#[test]
fn what_follows_an_identifier_must_be_known() {
    let outcome = MacroArgs::parse("err \"x\" ok");
    assert_eq!(
        outcome,
        Err(ParseError::Parameter {
            rest: "\"x\" ok".to_string()
        })
    );
    assert_eq!(
        outcome.unwrap_err().message(),
        "Can't parse parameter \"\\\"x\\\" ok\" -- parameters should either be in the forms name=value, name(values_list) or name (standalone identifiers)"
    );
    assert_eq!(
        MacroArgs::parse("skip[a]"),
        Err(ParseError::Parameter {
            rest: "[a]".to_string()
        })
    );
}

#[test]
fn a_pair_needs_an_identifier_as_value() {
    let outcome = MacroArgs::parse("a=");
    assert_eq!(
        outcome,
        Err(ParseError::Value {
            name: "a".to_string(),
            problem: ValueProblem::EndOfInput
        })
    );
    assert_eq!(
        outcome.unwrap_err().message(),
        "Can't parse `val` for custom `name`=`val` parameter for name 'a': Error(\"unexpected end of input, expected identifier\")"
    );

    let outcome = MacroArgs::parse("a=fn");
    assert_eq!(
        outcome,
        Err(ParseError::Value {
            name: "a".to_string(),
            problem: ValueProblem::Keyword {
                name: "fn".to_string()
            }
        })
    );
    assert_eq!(
        outcome.unwrap_err().message(),
        "Can't parse `val` for custom `name`=`val` parameter for name 'a': Error(\"expected identifier, found keyword `fn`\")"
    );

    let outcome = MacroArgs::parse("a=1");
    assert_eq!(
        outcome,
        Err(ParseError::Value {
            name: "a".to_string(),
            problem: ValueProblem::NotIdentifier
        })
    );
    assert_eq!(
        outcome.unwrap_err().message(),
        "Can't parse `val` for custom `name`=`val` parameter for name 'a': Error(\"expected identifier\")"
    );
}

#[test]
fn value_problems_read_as_the_parser_of_identifiers_words_them() {
    let end = syn::parse_str::<syn::Ident>("").unwrap_err();
    assert_eq!(ValueProblem::EndOfInput.message(), format!("{:?}", end));
    let keyword = syn::parse_str::<syn::Ident>("fn").unwrap_err();
    assert_eq!(
        ValueProblem::Keyword {
            name: "fn".to_string()
        }
        .message(),
        format!("{:?}", keyword)
    );
    let other = syn::parse_str::<syn::Ident>("1").unwrap_err();
    assert_eq!(ValueProblem::NotIdentifier.message(), format!("{:?}", other));
}

#[test]
fn a_broken_skip_list_is_reported_with_its_problem() {
    let outcome = MacroArgs::parse("skip(a b)");
    assert_eq!(
        outcome,
        Err(ParseError::SkipList {
            reason: "Error(\"expected `,`\")".to_string()
        })
    );
    assert_eq!(
        outcome.unwrap_err().message(),
        "While parsing `skip`: Error(\"expected `,`\")"
    );
}

#[test]
fn skip_takes_the_list_as_it_is_written() {
    let parsed = MacroArgs::parse("skip(a, b::c, d = 1,)").unwrap();
    assert_eq!(parsed.parameters_to_skip, vec!["a", "b :: c", "d = 1"]);
    assert!(parsed.log_parameters);
}

#[test]
fn one_more_comma_after_an_item_is_passed_over() {
    let parsed = MacroArgs::parse("err,,skip(a), a=b,").unwrap();
    assert_eq!(parsed.log_return, ReturnLogOptions::LogErrOnly);
    assert_eq!(parsed.parameters_to_skip, vec!["a"]);
    assert_eq!(
        parsed.custom_params,
        vec![("a".to_string(), "b".to_string())]
    );
    assert_eq!(
        MacroArgs::parse("err,,,ok"),
        Err(ParseError::IdentifierExpected {
            rest: ", ok".to_string()
        })
    );
    assert_eq!(
        MacroArgs::parse("skip(a),, a=b"),
        Err(ParseError::IdentifierExpected {
            rest: ", a = b".to_string()
        })
    );
    assert_eq!(
        MacroArgs::parse("a=b,,err"),
        Err(ParseError::IdentifierExpected {
            rest: ", err".to_string()
        })
    );
}

#[test]
fn pairs_are_kept_in_order() {
    let parsed = MacroArgs::parse("x=y, a=b, x=z").unwrap();
    assert_eq!(
        parsed.custom_params,
        vec![
            ("x".to_string(), "y".to_string()),
            ("a".to_string(), "b".to_string()),
            ("x".to_string(), "z".to_string())
        ]
    );
    assert_eq!(parsed.log_return, ReturnLogOptions::Skip);
}

#[test]
fn tokens_carry_what_the_parser_reads() {
    let tokens = tokenize("skip(a, b) = fn x").unwrap();
    assert_eq!(
        tokens,
        vec![
            Lexeme {
                token: Token::Ident {
                    name: "skip".to_string(),
                    accepted: true
                },
                tail: "skip (a , b) = fn x".to_string()
            },
            Lexeme {
                token: Token::Paren {
                    items: Ok(vec!["a".to_string(), "b".to_string()])
                },
                tail: "(a , b) = fn x".to_string()
            },
            Lexeme {
                token: Token::Punct { ch: '=' },
                tail: "= fn x".to_string()
            },
            Lexeme {
                token: Token::Ident {
                    name: "fn".to_string(),
                    accepted: false
                },
                tail: "fn x".to_string()
            },
            Lexeme {
                token: Token::Ident {
                    name: "x".to_string(),
                    accepted: true
                },
                tail: "x".to_string()
            },
        ]
    );
    let others = tokenize("[a] {b} 1").unwrap();
    assert_eq!(others.len(), 3);
    assert!(others.iter().all(|lexeme| lexeme.token == Token::Other));
}

#[test]
fn parse_tokens_reads_given_tokens() {
    let tokens = vec![
        Lexeme {
            token: Token::Ident {
                name: "skip".to_string(),
                accepted: true,
            },
            tail: String::new(),
        },
        Lexeme {
            token: Token::Paren {
                items: Err("broken".to_string()),
            },
            tail: String::new(),
        },
    ];
    assert_eq!(
        MacroArgs::parse_tokens(&tokens),
        Err(ParseError::SkipList {
            reason: "broken".to_string()
        })
    );
}

#[test]
fn a_parse_error_describes_itself_by_its_message() {
    let error = ParseError::UnknownFunc {
        name: "f".to_string(),
    };
    assert_eq!(error.describe(), error.message());
}
