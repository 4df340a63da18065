use decaf_lsp::ast::{Block, ClassDef, DeclSite, Expr, FieldDef, FuncDef, Program, Stmt, VarDef};
use decaf_lsp::completion::CompletionItem;
use decaf_lsp::document::{Analysis, State};
use decaf_lsp::facts::{Diagnostic, Hover, SourceError, Symbol, SymbolKind};
use decaf_lsp::index::index_program;
use decaf_lsp::position::{Loc, Position, Range};
use decaf_lsp::tokens::{Token, TokenKind};

fn p(line: u64, character: u64) -> Position {
    Position { line, character }
}

fn r(l1: u64, c1: u64, l2: u64, c2: u64) -> Range {
    Range { start: p(l1, c1), end: p(l2, c2) }
}

fn s(x: &str) -> String {
    x.to_string()
}

/// `class Main { void main() { } }` on one line.
fn main_class(body: Vec<Stmt>, end: Loc) -> Program {
    let func = FuncDef {
        loc: Loc(1, 19),
        name: s("main"),
        signature: s("() -> void"),
        params: Vec::new(),
        body: Block { stmts: body },
    };
    Program {
        classes: vec![ClassDef {
            loc: Loc(1, 7),
            end,
            name: s("Main"),
            fields: vec![FieldDef::Func(func)],
        }],
    }
}

fn empty_main() -> Analysis {
    Analysis::Parsed { program: main_class(Vec::new(), Loc(1, 30)), type_errors: Vec::new() }
}

fn x_use(col: u32) -> Expr {
    Expr::VarSel {
        loc: Loc(3, col),
        name: s("x"),
        ty: Some(s("int")),
        owner: None,
        decl: Some(DeclSite { name: s("x"), loc: Loc(3, 5) }),
    }
}

/// Line 3 of the document holds `int x; x = x + 1;`.
fn counter() -> Analysis {
    let body = vec![
        Stmt::LocalVarDef(VarDef { loc: Loc(3, 5), name: s("x"), ty: Some(s("int")), init: None }),
        Stmt::Assign {
            dst: x_use(8),
            src: Expr::Binary { lhs: Box::new(x_use(12)), rhs: Box::new(Expr::Other) },
        },
    ];
    Analysis::Parsed { program: main_class(body, Loc(5, 1)), type_errors: Vec::new() }
}

fn counter_tokens() -> Vec<Token> {
    vec![
        Token { ty: TokenKind::Int, line: 3, col: 1, piece: b"int".to_vec() },
        Token { ty: TokenKind::Id, line: 3, col: 5, piece: b"x".to_vec() },
        Token { ty: TokenKind::IntLit, line: 3, col: 16, piece: b"1".to_vec() },
        Token { ty: TokenKind::Eof, line: 5, col: 2, piece: Vec::new() },
    ]
}

fn main_symbols(uri: &str) -> Vec<Symbol> {
    vec![
        Symbol {
            name: s("Main"),
            kind: SymbolKind::Class,
            uri: s(uri),
            range: r(0, 6, 0, 29),
            container: None,
        },
        Symbol {
            name: s("main"),
            kind: SymbolKind::Method,
            uri: s(uri),
            range: r(0, 18, 0, 18),
            container: Some(s("Main")),
        },
    ]
}

#[test]
fn class_with_method_symbols() {
    let uri = s("file:///main.decaf");
    let mut state = State::new();
    let diags = state.update(&uri, &s("class Main { void main() { } }"), &Vec::new(), empty_main());
    assert!(diags.is_empty());
    // Declaration order: the class, then its method.
    assert_eq!(state.document_symbol(&uri), main_symbols("file:///main.decaf"));
}

#[test]
fn syntax_error_keeps_symbols() {
    let uri = s("file:///main.decaf");
    let mut state = State::new();
    state.update(&uri, &s("class Main { void main() { } }"), &Vec::new(), empty_main());
    let errors = vec![SourceError { loc: Loc(1, 13), message: s("unexpected end of file") }];
    let diags = state.update(&uri, &s("class Main {"), &Vec::new(), Analysis::Failed { errors });
    assert_eq!(diags, vec![Diagnostic { range: r(0, 12, 0, 12), message: s("unexpected end of file") }]);
    assert_eq!(state.document_symbol(&uri), main_symbols("file:///main.decaf"));
}

#[test]
fn use_resolves_to_declaration() {
    let uri = s("file:///counter.decaf");
    let mut state = State::new();
    let text = s("class Main {\n  void main() {\nint x; x = x + 1;\n  }\n}");
    state.update(&uri, &text, &counter_tokens(), counter());
    // The second `x` starts at column 8 of line 3.
    assert_eq!(state.goto_definition(&uri, &p(2, 7)), Some(r(2, 4, 2, 5)));
    assert_eq!(state.goto_definition(&uri, &p(2, 11)), Some(r(2, 4, 2, 5)));
    assert_eq!(state.goto_definition(&uri, &p(2, 4)), None);
    assert_eq!(
        state.hover(&uri, &p(2, 7)),
        Some(Hover { contents: s("x: int"), range: Some(r(2, 7, 2, 7)) })
    );
}

#[test]
fn typing_print_offers_print() {
    let uri = s("file:///typing.decaf");
    let mut state = State::new();
    let text = s("class Main {\n  void main() {\n    Pri");
    let errors = vec![SourceError { loc: Loc(3, 8), message: s("unexpected end of file") }];
    state.update(&uri, &text, &Vec::new(), Analysis::Failed { errors });
    assert_eq!(
        state.completion(&uri, &p(2, 7)),
        Some(vec![CompletionItem { label: s("Print"), insert_text: s("Print($1)") }])
    );
}

#[test]
fn same_change_twice_same_index() {
    let uri = s("file:///counter.decaf");
    let text = s("class Main {\n  void main() {\nint x; x = x + 1;\n  }\n}");
    let mut state = State::new();
    state.update(&uri, &text, &counter_tokens(), counter());
    let symbols = state.document_symbol(&uri);
    let hovers: Vec<Option<Hover>> = (0..20).map(|c| state.hover(&uri, &p(2, c))).collect();
    let defs: Vec<Option<Range>> = (0..20).map(|c| state.goto_definition(&uri, &p(2, c))).collect();
    state.update(&uri, &text, &counter_tokens(), counter());
    assert_eq!(state.document_symbol(&uri), symbols);
    let hovers2: Vec<Option<Hover>> = (0..20).map(|c| state.hover(&uri, &p(2, c))).collect();
    let defs2: Vec<Option<Range>> = (0..20).map(|c| state.goto_definition(&uri, &p(2, c))).collect();
    assert_eq!(hovers2, hovers);
    assert_eq!(defs2, defs);
    assert_eq!(state.symbol().len(), 2);
}

#[test]
fn token_hovers_come_before_program_hovers() {
    let idx = index_program(&s("u"), &match counter() {
        Analysis::Parsed { program, .. } => program,
        Analysis::Failed { .. } => unreachable!(),
    });
    // class, method, declaration of x, then the three uses
    assert_eq!(idx.hovers.len(), 5);
    assert_eq!(idx.hovers[0].1.contents, "Main");
    assert_eq!(idx.hovers[0].1.range, Some(r(0, 6, 4, 0)));
    assert_eq!(idx.hovers[1].1.contents, "main: () -> void");
    assert_eq!(idx.hovers[2].1.contents, "x: int");
    assert_eq!(idx.definitions.len(), 2);
    let uri = s("file:///counter.decaf");
    let mut state = State::new();
    state.update(&uri, &s("..."), &counter_tokens(), counter());
    assert_eq!(state.hover(&uri, &p(2, 1)), Some(Hover { contents: s("Int"), range: None }));
    assert_eq!(state.hover(&uri, &p(2, 15)), Some(Hover { contents: s("Integer Literal"), range: None }));
    assert_eq!(
        state.hover(&uri, &p(0, 7)),
        Some(Hover { contents: s("Main"), range: Some(r(0, 6, 4, 0)) })
    );
}

#[test]
fn missing_type_shows_placeholder() {
    let body = vec![Stmt::ExprEval(Expr::VarSel {
        loc: Loc(2, 3),
        name: s("y"),
        ty: None,
        owner: None,
        decl: None,
    })];
    let uri = s("file:///y.decaf");
    let mut state = State::new();
    state.update(&uri, &s(""), &Vec::new(), Analysis::Parsed {
        program: main_class(body, Loc(3, 1)),
        type_errors: Vec::new(),
    });
    assert_eq!(
        state.hover(&uri, &p(1, 2)),
        Some(Hover { contents: s("y: unknown"), range: Some(r(1, 2, 1, 2)) })
    );
    assert_eq!(state.goto_definition(&uri, &p(1, 2)), None);
}

#[test]
fn type_errors_become_diagnostics() {
    let uri = s("file:///t.decaf");
    let mut state = State::new();
    let type_errors = vec![
        SourceError { loc: Loc(2, 4), message: s("IncompatibleBinary") },
        SourceError { loc: Loc(0, 0), message: s("NoMainClass") },
    ];
    let diags = state.update(&uri, &s(""), &Vec::new(), Analysis::Parsed {
        program: main_class(Vec::new(), Loc(1, 30)),
        type_errors,
    });
    assert_eq!(
        diags,
        vec![
            Diagnostic { range: r(1, 3, 1, 3), message: s("IncompatibleBinary") },
            Diagnostic { range: r(0, 0, 0, 0), message: s("NoMainClass") },
        ]
    );
    assert_eq!(state.document_symbol(&uri).len(), 2);
}

#[test]
fn failed_first_parse_has_no_symbols() {
    let uri = s("file:///bad.decaf");
    let mut state = State::new();
    let errors = vec![SourceError { loc: Loc(1, 1), message: s("syntax error") }];
    let tokens = vec![Token { ty: TokenKind::Class, line: 1, col: 1, piece: b"class".to_vec() }];
    state.update(&uri, &s("class"), &tokens, Analysis::Failed { errors });
    assert!(state.document_symbol(&uri).is_empty());
    assert_eq!(state.hover(&uri, &p(0, 2)), Some(Hover { contents: s("Class"), range: None }));
}

#[test]
fn close_clears_symbols_only() {
    let uri = s("file:///counter.decaf");
    let mut state = State::new();
    state.update(&uri, &s("..."), &counter_tokens(), counter());
    state.close(&uri);
    assert!(state.document_symbol(&uri).is_empty());
    assert!(state.symbol().is_empty());
    assert_eq!(state.goto_definition(&uri, &p(2, 7)), Some(r(2, 4, 2, 5)));
    assert!(state.hover(&uri, &p(2, 7)).is_some());
}

#[test]
fn unknown_document_answers_nothing() {
    let state = State::new();
    let uri = s("file:///none.decaf");
    assert!(state.document_symbol(&uri).is_empty());
    assert_eq!(state.hover(&uri, &p(0, 0)), None);
    assert_eq!(state.goto_definition(&uri, &p(0, 0)), None);
    assert_eq!(state.completion(&uri, &p(0, 0)), None);
    assert!(state.symbol().is_empty());
}

#[test]
fn workspace_symbols_of_all_documents() {
    let mut state = State::new();
    state.update(&s("file:///a.decaf"), &s(""), &Vec::new(), empty_main());
    state.update(&s("file:///b.decaf"), &s(""), &Vec::new(), empty_main());
    let all = state.symbol();
    assert_eq!(all.len(), 4);
    let mut expected = main_symbols("file:///a.decaf");
    expected.extend(main_symbols("file:///b.decaf"));
    assert_eq!(all, expected);
}

#[test]
fn fields_and_parameters_are_indexed() {
    let func = FuncDef {
        loc: Loc(3, 9),
        name: s("get"),
        signature: s("(int) -> int"),
        params: vec![VarDef { loc: Loc(3, 17), name: s("k"), ty: Some(s("int")), init: None }],
        body: Block {
            stmts: vec![Stmt::Return(Some(Expr::VarSel {
                loc: Loc(3, 29),
                name: s("k"),
                ty: Some(s("int")),
                owner: None,
                decl: Some(DeclSite { name: s("k"), loc: Loc(3, 17) }),
            }))],
        },
    };
    let field = VarDef { loc: Loc(2, 7), name: s("count"), ty: Some(s("int")), init: None };
    let program = Program {
        classes: vec![ClassDef {
            loc: Loc(1, 7),
            end: Loc(4, 1),
            name: s("Box"),
            fields: vec![FieldDef::Var(field), FieldDef::Func(func)],
        }],
    };
    let idx = index_program(&s("u"), &program);
    let names: Vec<(String, SymbolKind)> = idx.symbols.iter().map(|x| (x.name.clone(), x.kind)).collect();
    assert_eq!(
        names,
        vec![
            (s("Box"), SymbolKind::Class),
            (s("count"), SymbolKind::Field),
            (s("get"), SymbolKind::Method),
        ]
    );
    assert_eq!(idx.symbols[1].container, Some(s("Box")));
    assert_eq!(idx.symbols[1].range, r(1, 6, 1, 6));
    let texts: Vec<String> = idx.hovers.iter().map(|h| h.1.contents.clone()).collect();
    assert_eq!(texts, vec![s("Box"), s("count: int"), s("get: (int) -> int"), s("k: int"), s("k: int")]);
    assert_eq!(idx.hovers[1].0, r(1, 6, 1, 11));
    assert_eq!(idx.definitions, vec![(r(2, 28, 2, 29), r(2, 16, 2, 17))]);
}

#[test]
fn selection_owner_and_calls_are_walked() {
    // a.f(b[i]) with `a`, `f`, `b` and `i` resolved
    let var = |col: u32, name: &str, owner: Option<Box<Expr>>| Expr::VarSel {
        loc: Loc(2, col),
        name: s(name),
        ty: None,
        owner,
        decl: Some(DeclSite { name: s(name), loc: Loc(1, 1) }),
    };
    let call = Expr::Call {
        func: Box::new(var(3, "f", Some(Box::new(var(1, "a", None))))),
        args: vec![Expr::IndexSel { arr: Box::new(var(5, "b", None)), idx: Box::new(var(7, "i", None)) }],
    };
    let program = main_class(vec![Stmt::ExprEval(call)], Loc(3, 1));
    let idx = index_program(&s("u"), &program);
    let texts: Vec<String> = idx.hovers.iter().skip(2).map(|h| h.1.contents.clone()).collect();
    assert_eq!(texts, vec![s("f: unknown"), s("a: unknown"), s("b: unknown"), s("i: unknown")]);
    let uses: Vec<Range> = idx.definitions.iter().map(|d| d.0).collect();
    assert_eq!(uses, vec![r(1, 0, 1, 1), r(1, 2, 1, 3), r(1, 4, 1, 5), r(1, 6, 1, 7)]);
}

#[test]
fn statements_are_walked_in_order() {
    let v = |col: u32| Expr::VarSel { loc: Loc(2, col), name: s("v"), ty: None, owner: None, decl: None };
    let block = |col: u32| Block { stmts: vec![Stmt::ExprEval(v(col))] };
    let body = vec![
        Stmt::If { cond: v(1), on_true: block(2), on_false: Some(block(3)) },
        Stmt::While { cond: v(4), body: block(5) },
        Stmt::For {
            init: Box::new(Stmt::Assign { dst: v(6), src: Expr::Other }),
            cond: v(7),
            update: Box::new(Stmt::ExprEval(Expr::Unary { operand: Box::new(v(8)) })),
            body: block(9),
        },
        Stmt::Print(vec![v(10), v(11)]),
        Stmt::Block(block(12)),
        Stmt::Return(None),
        Stmt::Other,
        Stmt::LocalVarDef(VarDef { loc: Loc(2, 13), name: s("w"), ty: None, init: Some(v(14)) }),
    ];
    let idx = index_program(&s("u"), &main_class(body, Loc(3, 1)));
    let cols: Vec<u64> = idx.hovers.iter().skip(2).map(|h| h.0.start.character + 1).collect();
    assert_eq!(cols, (1..15).collect::<Vec<u64>>());
    assert!(idx.definitions.is_empty());
}
