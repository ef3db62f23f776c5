use quench::actor::{handle_request, Request, Response};
use quench::compiler::{compile_expression, compile_file, compile_identifier};
use quench::db::{Database, Uri};
use quench::diagnostics::{Diagnostic, Severity};
use quench::estree;
use quench::lexer::{lex, TokKind};
use quench::parser::parse;
use quench::position::{Point, Position, Range};
use quench::syntax::{self, Node};
use quench::text::Index;
use quench::tokens::{make_relative, token_type_index, token_types, SemanticToken, TokenType};
use quench::tree::NodeKind;

fn chars(s: &str) -> Vec<char> {
    s.chars().collect()
}

fn uri(s: &str) -> Uri {
    Uri::from_bytes(s.bytes().collect())
}

fn foo_db(text: &str) -> (Database, Uri) {
    let mut db = Database::default();
    let u = uri("file:///tmp/foo.qn");
    db.open_document(u.duplicate(), chars(text)).unwrap();
    (db, u)
}

fn make_range(start_line: u32, start_character: u32, end_line: u32, end_character: u32) -> Range {
    Range::new(
        Position::new(start_line, start_character),
        Position::new(end_line, end_character),
    )
}

fn make_error(sl: u32, sc: u32, el: u32, ec: u32, message: &str) -> Diagnostic {
    Diagnostic {
        range: make_range(sl, sc, el, ec),
        severity: Severity::Error,
        message: message.to_string(),
    }
}

fn make_token(delta_line: u32, delta_start: u32, length: u32, token_type: TokenType) -> SemanticToken {
    SemanticToken {
        delta_line,
        delta_start,
        length,
        token_type: token_type_index(token_type),
        token_modifiers_bitset: 0,
    }
}

const HELLO: &str = "#!/usr/bin/env quench\n\nprint(\"Hello, world!\");\n";

#[test]
fn test_diagnostics_hello_world() {
    let (mut db, u) = foo_db("print(\"Hello,\"\" world!\")");
    let diagnostics = db.diagnostics(&u);
    assert_eq!(
        diagnostics,
        vec![
            make_error(0, 6, 0, 14, "syntax error"),
            make_error(0, 24, 0, 24, "syntax missing"),
        ],
    );
}

#[test]
fn test_tokens_multiline() {
    let (mut db, u) = foo_db("print(\"long line\nvery long middle line\nshort\");");
    let tokens = db.semantic_tokens(&u);
    assert_eq!(
        tokens,
        vec![
            make_token(0, 0, 5, TokenType::Variable),
            make_token(0, 6, 10, TokenType::Str),
            make_token(1, 0, 21, TokenType::Str),
            make_token(1, 0, 6, TokenType::Str),
        ]
    );
}

#[test]
fn test_tokens_hello_source() {
    let (mut db, u) = foo_db(HELLO);
    let tokens = db.semantic_tokens(&u);
    assert_eq!(
        tokens,
        vec![
            make_token(0, 0, 21, TokenType::Comment),
            make_token(2, 0, 5, TokenType::Variable),
            make_token(0, 6, 15, TokenType::Str),
        ],
    );
}

#[test]
fn test_diagnostics_hello_source_clean() {
    let (mut db, u) = foo_db(HELLO);
    assert!(db.diagnostics(&u).is_empty());
}

#[test]
fn test_legend_order() {
    let legend = token_types();
    assert_eq!(legend, vec!["comment", "string", "variable"]);
    assert_eq!(token_type_index(TokenType::Comment), 0);
    assert_eq!(token_type_index(TokenType::Str), 1);
    assert_eq!(token_type_index(TokenType::Variable), 2);
}

#[test]
fn test_delta_pass_empty_and_repeatable() {
    let empty = make_relative(&Vec::new());
    assert!(empty.is_empty());
    let (mut db, u) = foo_db(HELLO);
    let tree = db.ast(&u).unwrap();
    let index = db.source_index(&u).unwrap();
    let absolute = quench::tokens::absolute_tokens(&tree, &index);
    let once = make_relative(&absolute);
    let twice = make_relative(&absolute);
    assert_eq!(once, twice);
}

#[test]
fn test_index_utf16_saturation() {
    let index = Index::new(&chars("a\u{1F600}b\nx"));
    assert_eq!(index.to_lsp(Point { row: 0, column: 0 }), Position::new(0, 0));
    assert_eq!(index.to_lsp(Point { row: 0, column: 1 }), Position::new(0, 1));
    assert_eq!(index.to_lsp(Point { row: 0, column: 2 }), Position::new(0, 3));
    assert_eq!(index.to_lsp(Point { row: 0, column: 3 }), Position::new(0, 4));
    assert_eq!(
        index.to_lsp(Point { row: 0, column: usize::MAX }),
        Position::new(0, 4)
    );
    assert_eq!(index.to_lsp(Point { row: 1, column: 0 }), Position::new(1, 0));
}

#[test]
fn test_index_empty_text() {
    let index = Index::new(&Vec::new());
    assert_eq!(index.to_lsp(Point { row: 0, column: 0 }), Position::new(0, 0));
    assert_eq!(index.to_lsp(Point { row: 7, column: 9 }), Position::new(0, 0));
}

#[test]
fn test_lexer_kinds() {
    let toks = lex(&chars("print(\"hi\", x);# note"));
    let kinds: Vec<TokKind> = toks.iter().map(|t| t.kind).collect();
    assert_eq!(
        kinds,
        vec![
            TokKind::Ident,
            TokKind::OpenParen,
            TokKind::Str,
            TokKind::Comma,
            TokKind::Ident,
            TokKind::CloseParen,
            TokKind::Semi,
            TokKind::Comment,
        ]
    );
}

#[test]
fn test_parse_shape() {
    let tree = parse(&chars("print(\"hi\");"));
    assert_eq!(tree.kind, NodeKind::SourceFile);
    assert_eq!(tree.children.len(), 1);
    let call = &tree.children[0];
    assert_eq!(call.kind, NodeKind::Call);
    assert!(!call.is_error());
    assert!(!call.is_missing());
    assert_eq!(call.children.len(), 2);
    assert_eq!(call.children[0].kind, NodeKind::Ident);
    assert_eq!(call.children[1].kind, NodeKind::Arguments);
}

#[test]
fn test_unterminated_string_runs_to_end() {
    let toks = lex(&chars("\"abc"));
    assert_eq!(toks.len(), 1);
    assert_eq!(toks[0].kind, TokKind::Str);
    assert_eq!(toks[0].start_off, 0);
    assert_eq!(toks[0].end_off, 4);
}

#[test]
fn test_make_typed_tree() {
    let text = chars(HELLO);
    let tree = parse(&text);
    let file = syntax::File::make(&text, &tree).unwrap();
    assert_eq!(
        file,
        syntax::File {
            body: vec![syntax::Statement::Expr(syntax::Expression::Call(syntax::Call {
                function: syntax::Identifier {
                    name: chars("print")
                },
                arguments: vec![syntax::Expression::Lit(syntax::Literal::Str(chars(
                    "Hello, world!"
                )))],
            }))],
        }
    );
}

#[test]
fn test_compile_identifier_known_and_unknown() {
    let print_expr = compile_identifier(&syntax::Identifier {
        name: chars("print"),
    })
    .unwrap();
    assert_eq!(
        print_expr,
        estree::Expression::Member {
            object: Box::new(estree::Expression::Identifier {
                name: "console".to_string()
            }),
            property: Box::new(estree::Expression::Identifier {
                name: "log".to_string()
            }),
            computed: false,
        }
    );
    assert!(compile_identifier(&syntax::Identifier {
        name: chars("mystery")
    })
    .is_none());
}

#[test]
fn test_compile_file_drops_unknown_arguments() {
    let text = chars("print(mystery,\"x\");");
    let tree = parse(&text);
    let file = syntax::File::make(&text, &tree).unwrap();
    let program = compile_file(&file).unwrap();
    assert_eq!(
        program,
        estree::Program {
            body: vec![estree::ProgramItem::Statement(estree::Statement::Expression {
                expression: Box::new(estree::Expression::Call {
                    callee: Box::new(estree::Expression::Member {
                        object: Box::new(estree::Expression::Identifier {
                            name: "console".to_string()
                        }),
                        property: Box::new(estree::Expression::Identifier {
                            name: "log".to_string()
                        }),
                        computed: false,
                    }),
                    arguments: vec![estree::Expression::Literal {
                        value: estree::Value::String("x".to_string())
                    }],
                }),
            })],
        }
    );
}

#[test]
fn test_compile_unknown_expression_dropped() {
    let expr = syntax::Expression::Id(syntax::Identifier {
        name: chars("mystery"),
    });
    assert!(compile_expression(&expr).is_none());
}

#[test]
fn test_actor_round_trip() {
    let mut db = Database::default();
    let u = uri("file:///tmp/foo.qn");
    match handle_request(
        &mut db,
        Request::Open {
            uri: u.duplicate(),
            text: chars("print(\"Hello,\"\" world!\")"),
        },
    ) {
        Response::Open(res) => assert!(res.is_ok()),
        _ => panic!("reply shape does not match the request"),
    }
    match handle_request(&mut db, Request::Diagnostics { uri: u.duplicate() }) {
        Response::Diagnostics(ds) => {
            assert_eq!(
                ds,
                vec![
                    make_error(0, 6, 0, 14, "syntax error"),
                    make_error(0, 24, 0, 24, "syntax missing"),
                ]
            );
        }
        _ => panic!("reply shape does not match the request"),
    }
    match handle_request(
        &mut db,
        Request::Edit {
            uri: u.duplicate(),
            version: 2,
            changes: vec![quench::db::ContentChange {
                range: None,
                range_length: None,
                text: chars("print(\"ok\");"),
            }],
        },
    ) {
        Response::Edit(res) => assert!(res.is_ok()),
        _ => panic!("reply shape does not match the request"),
    }
    match handle_request(&mut db, Request::Diagnostics { uri: u.duplicate() }) {
        Response::Diagnostics(ds) => assert!(ds.is_empty()),
        _ => panic!("reply shape does not match the request"),
    }
    match handle_request(&mut db, Request::Ast { uri: u.duplicate() }) {
        Response::Ast(tree) => {
            let tree = tree.unwrap();
            assert_eq!(tree.kind, NodeKind::SourceFile);
            assert_eq!(tree.children.len(), 1);
        }
        _ => panic!("reply shape does not match the request"),
    }
    match handle_request(&mut db, Request::Close { uri: u.duplicate() }) {
        Response::Close(res) => assert!(res.is_ok()),
        _ => panic!("reply shape does not match the request"),
    }
    match handle_request(&mut db, Request::SemanticTokens { uri: u.duplicate() }) {
        Response::SemanticTokens(ts) => assert!(ts.is_empty()),
        _ => panic!("reply shape does not match the request"),
    }
}

#[test]
fn test_sexp_hello_source() {
    let tree = parse(&chars(HELLO));
    assert_eq!(
        tree.sexp(),
        "(source_file (comment) (call function: (identifier) arguments: (arguments (string))))"
    );
}

#[test]
fn test_sexp_missing_token() {
    let tree = parse(&chars("print(\"hi\")"));
    assert_eq!(
        tree.sexp(),
        "(source_file (call function: (identifier) arguments: (arguments (string))) (MISSING \";\"))"
    );
}
