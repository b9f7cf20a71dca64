use logic_circuits::ast::{Component, GateType, Program, Subcircuit};
use logic_circuits::lang;
use logic_circuits::eval::{apply_gate, evaluate_circuit, evaluate_subcircuit, EvalErrorKind};
use logic_circuits::lang::{
    keyword_token, token_class, tokenize, Lexer, LexerError, Location, TokenClass, TokenKind,
};
use logic_circuits::parser::{parse_source, Expected, ParseError, Parser, SourceError};
use logic_circuits::table::{generate_input_combinations, table_header, truth_table};

const INLINE_NAND: &str =
    "INPUTS a, b\nOUTPUTS out\nAND gate1 IN(a, b) OUT(temp)\nNOT gate2 IN(temp) OUT(out)";

const SUBCIRCUIT_NAND: &str = "INPUTS a, b\nOUTPUTS out\nNAND2 IN(x, y) OUT(z) (\n  AND g1 IN(x, y) OUT(t)\n  NOT g2 IN(t) OUT(z)\n)\nNAND2 n1 IN(a, b) OUT(out)\n";

fn parse(src: &str) -> Program {
    parse_source(src.to_string()).unwrap()
}

fn names(v: &[&str]) -> Vec<String> {
    v.iter().map(|s| s.to_string()).collect()
}

fn gate(gate_type: GateType, id: &str, inputs: &[&str], outputs: &[&str]) -> Component {
    Component {
        gate_type,
        identifier: id.to_string(),
        inputs: names(inputs),
        outputs: names(outputs),
    }
}

fn program(inputs: &[&str], outputs: &[&str], components: Vec<Component>) -> Program {
    Program {
        inputs: names(inputs),
        outputs: names(outputs),
        components,
        subcircuits: Vec::new(),
    }
}

fn nand_rows() -> Vec<Vec<bool>> {
    vec![
        vec![false, false, true],
        vec![false, true, true],
        vec![true, false, true],
        vec![true, true, false],
    ]
}

#[test]
fn nand_by_and_and_not() {
    let p = parse(INLINE_NAND);
    assert_eq!(p.inputs, names(&["a", "b"]));
    assert_eq!(p.outputs, names(&["out"]));
    assert_eq!(truth_table(&p).unwrap(), nand_rows());
}

#[test]
fn subcircuit_nand_matches_inline() {
    let p = parse(SUBCIRCUIT_NAND);
    assert_eq!(p.subcircuits.len(), 1);
    assert_eq!(p.subcircuits[0].name, "NAND2");
    assert_eq!(p.subcircuits[0].components.len(), 2);
    assert_eq!(truth_table(&p).unwrap(), truth_table(&parse(INLINE_NAND)).unwrap());
    assert_eq!(truth_table(&p).unwrap(), nand_rows());
}

#[test]
fn subcircuit_instance_equals_definition_alone() {
    let p = parse(SUBCIRCUIT_NAND);
    let name = "NAND2".to_string();
    for a in [false, true] {
        for b in [false, true] {
            let alone = evaluate_subcircuit(&p, &name, &vec![a, b]).unwrap();
            let env = evaluate_circuit(&p, &vec![a, b]).unwrap();
            assert_eq!(alone, vec![env.get(&"out".to_string()).unwrap()]);
            assert_eq!(alone, vec![!(a && b)]);
        }
    }
}

#[test]
fn subcircuit_may_be_defined_after_use() {
    let src = "INPUTS a\nOUTPUTS y\nINV i1 IN(a) OUT(y)\nINV IN(p) OUT(q) (\nNOT n IN(p) OUT(q)\n)\n";
    let p = parse(src);
    assert_eq!(truth_table(&p).unwrap(), vec![vec![false, true], vec![true, false]]);
}

#[test]
fn nested_subcircuits() {
    let src = "INPUTS a, b\nOUTPUTS o\nNAND2 IN(x, y) OUT(z) (\nNAND n IN(x, y) OUT(z)\n)\nAND2 IN(x, y) OUT(z) (\nNAND2 u IN(x, y) OUT(t)\nNAND2 v IN(t, t) OUT(z)\n)\nAND2 top IN(a, b) OUT(o)\n";
    let p = parse(src);
    let rows = truth_table(&p).unwrap();
    assert_eq!(rows, vec![
        vec![false, false, false],
        vec![false, true, false],
        vec![true, false, false],
        vec![true, true, true],
    ]);
}

#[test]
fn reevaluation_gives_identical_bindings() {
    let p = parse(INLINE_NAND);
    for vals in generate_input_combinations(2) {
        let first = evaluate_circuit(&p, &vals).unwrap();
        let second = evaluate_circuit(&p, &vals).unwrap();
        for n in ["a", "b", "temp", "out"] {
            let n = n.to_string();
            assert_eq!(first.get(&n), second.get(&n));
        }
    }
    assert_eq!(truth_table(&p).unwrap(), truth_table(&p).unwrap());
}

#[test]
fn combinations_count_in_binary() {
    assert_eq!(generate_input_combinations(0), vec![Vec::<bool>::new()]);
    assert_eq!(
        generate_input_combinations(2),
        vec![vec![false, false], vec![false, true], vec![true, false], vec![true, true]]
    );
    let three = generate_input_combinations(3);
    assert_eq!(three.len(), 8);
    assert_eq!(three[5], vec![true, false, true]);
    assert_eq!(three[6], vec![true, true, false]);
    assert_eq!(generate_input_combinations(10).len(), 1024);
    assert_eq!(generate_input_combinations(10)[1023], vec![true; 10]);
}

#[test]
fn table_rows_show_input_bits() {
    let src = "INPUTS p, q, r\nOUTPUTS x\nXOR g IN(p, q, r) OUT(x)\n";
    let rows = truth_table(&parse(src)).unwrap();
    assert_eq!(rows.len(), 8);
    for (i, row) in rows.iter().enumerate() {
        let bits: Vec<bool> = (0..3).map(|j| (i >> (2 - j)) & 1 == 1).collect();
        assert_eq!(row[..3].to_vec(), bits);
        assert_eq!(row[3], bits.iter().filter(|b| **b).count() % 2 == 1);
    }
}

#[test]
fn gates_ignore_input_order() {
    for g in [GateType::And, GateType::Or, GateType::Xor, GateType::Nand, GateType::Nor, GateType::Xnor] {
        let a = apply_gate(&g, vec![true, false, true]);
        let b = apply_gate(&g, vec![true, true, false]);
        let c = apply_gate(&g, vec![false, true, true]);
        assert_eq!(a, b);
        assert_eq!(b, c);
    }
    assert_eq!(apply_gate(&GateType::Xor, vec![true, false, true]), Some(false));
    assert_eq!(apply_gate(&GateType::Xor, vec![true, true, true]), Some(true));
}

#[test]
fn gates_group_freely() {
    for x in [false, true] {
        for y in [false, true] {
            for z in [false, true] {
                for (g, f) in [
                    (GateType::And, (|p: bool, q: bool| p && q) as fn(bool, bool) -> bool),
                    (GateType::Or, |p, q| p || q),
                    (GateType::Xor, |p, q| p != q),
                ] {
                    let all = apply_gate(&g, vec![x, y, z]).unwrap();
                    let left = f(apply_gate(&g, vec![x, y]).unwrap(), z);
                    let right = f(x, apply_gate(&g, vec![y, z]).unwrap());
                    assert_eq!(all, left);
                    assert_eq!(all, right);
                }
            }
        }
    }
}

#[test]
fn negated_gates() {
    for x in [false, true] {
        for y in [false, true] {
            let v = vec![x, y];
            assert_eq!(apply_gate(&GateType::Nand, v.clone()), Some(!(x && y)));
            assert_eq!(apply_gate(&GateType::Nor, v.clone()), Some(!(x || y)));
            assert_eq!(apply_gate(&GateType::Xnor, v.clone()), Some(x == y));
            assert_eq!(apply_gate(&GateType::And, v.clone()), Some(x && y));
            assert_eq!(apply_gate(&GateType::Or, v.clone()), Some(x || y));
        }
    }
}

#[test]
fn not_gate_arity() {
    assert_eq!(apply_gate(&GateType::Not, vec![true]), Some(false));
    assert_eq!(apply_gate(&GateType::Not, vec![false]), Some(true));
    assert_eq!(apply_gate(&GateType::Not, vec![]), None);
    assert_eq!(apply_gate(&GateType::Not, vec![true, false]), None);
    assert_eq!(apply_gate(&GateType::And, vec![]), None);
    let p = parse("INPUTS a, b\nOUTPUTS o\nNOT n1 IN(a, b) OUT(o)\n");
    let e = evaluate_circuit(&p, &vec![true, false]).unwrap_err();
    assert_eq!(e.kind, EvalErrorKind::ArityMismatch);
    assert_eq!(e.name, "n1");
    let p = parse("INPUTS a\nOUTPUTS o\nNOT n2 IN() OUT(o)\n");
    let e = evaluate_circuit(&p, &vec![true]).unwrap_err();
    assert_eq!(e.kind, EvalErrorKind::ArityMismatch);
    assert_eq!(e.name, "n2");
}

#[test]
fn unresolved_signal() {
    let p = parse("INPUTS a\nOUTPUTS o\nAND g IN(a, ghost) OUT(o)\n");
    let e = evaluate_circuit(&p, &vec![true]).unwrap_err();
    assert_eq!(e.kind, EvalErrorKind::UnresolvedSignal);
    assert_eq!(e.name, "ghost");
    let e = truth_table(&p).unwrap_err();
    assert_eq!(e.kind, EvalErrorKind::UnresolvedSignal);
}

#[test]
fn output_never_bound() {
    let p = parse("INPUTS a\nOUTPUTS o, missing\nNOT g IN(a) OUT(o)\n");
    let env = evaluate_circuit(&p, &vec![true]).unwrap();
    assert_eq!(env.get(&"o".to_string()), Some(false));
    assert_eq!(env.get(&"missing".to_string()), None);
    let e = truth_table(&p).unwrap_err();
    assert_eq!(e.kind, EvalErrorKind::UnresolvedSignal);
    assert_eq!(e.name, "missing");
}

#[test]
fn unknown_subcircuit() {
    let p = parse("INPUTS a\nOUTPUTS o\nMYSTERY m IN(a) OUT(o)\n");
    let e = evaluate_circuit(&p, &vec![true]).unwrap_err();
    assert_eq!(e.kind, EvalErrorKind::UnknownSubcircuit);
    assert_eq!(e.name, "MYSTERY");
    let e = evaluate_subcircuit(&p, &"MYSTERY".to_string(), &vec![true]).unwrap_err();
    assert_eq!(e.kind, EvalErrorKind::UnknownSubcircuit);
}

#[test]
fn subcircuit_arity_mismatch() {
    let p = parse("INPUTS a\nOUTPUTS o\nBUF IN(x) OUT(y) (\nAND g IN(x) OUT(y)\n)\nBUF b1 IN(a, a) OUT(o)\n");
    let e = evaluate_circuit(&p, &vec![true]).unwrap_err();
    assert_eq!(e.kind, EvalErrorKind::ArityMismatch);
    assert_eq!(e.name, "b1");
    let e = evaluate_subcircuit(&p, &"BUF".to_string(), &vec![]).unwrap_err();
    assert_eq!(e.kind, EvalErrorKind::ArityMismatch);
    let e = evaluate_circuit(&p, &vec![true, false]).unwrap_err();
    assert_eq!(e.kind, EvalErrorKind::ArityMismatch);
    assert_eq!(e.name, "");
}

#[test]
fn recursive_subcircuit_is_an_error() {
    let p = parse("INPUTS a\nOUTPUTS o\nLOOP IN(x) OUT(y) (\nLOOP inner IN(x) OUT(y)\n)\nLOOP l IN(a) OUT(o)\n");
    let e = evaluate_circuit(&p, &vec![true]).unwrap_err();
    assert_eq!(e.kind, EvalErrorKind::RecursiveSubcircuit);
    assert_eq!(e.name, "LOOP");
}

#[test]
fn program_built_by_hand() {
    let mut p = program(&["a", "b"], &["s", "c"], vec![
        gate(GateType::Subcircuit("HALF".to_string()), "h", &["a", "b"], &["s", "c"]),
    ]);
    p.subcircuits.push(Subcircuit {
        name: "HALF".to_string(),
        inputs: names(&["x", "y"]),
        outputs: names(&["sum", "carry"]),
        components: vec![
            gate(GateType::Xor, "x1", &["x", "y"], &["sum"]),
            gate(GateType::And, "a1", &["x", "y"], &["carry"]),
        ],
    });
    assert_eq!(truth_table(&p).unwrap(), vec![
        vec![false, false, false, false],
        vec![false, true, true, false],
        vec![true, false, true, false],
        vec![true, true, false, true],
    ]);
}

#[test]
fn lexer_tokens() {
    let toks = tokenize("INPUTS a, b\nOUTPUTS out\nAND g1 IN(a, b) OUT(out)".to_string()).unwrap();
    assert_eq!(toks, vec![
        TokenKind::Inputs,
        TokenKind::Identifier("a".to_string()),
        TokenKind::Comma,
        TokenKind::Identifier("b".to_string()),
        TokenKind::Newline,
        TokenKind::Outputs,
        TokenKind::Out,
        TokenKind::Newline,
        TokenKind::And,
        TokenKind::Identifier("g1".to_string()),
        TokenKind::In,
        TokenKind::ParenOpen,
        TokenKind::Identifier("a".to_string()),
        TokenKind::Comma,
        TokenKind::Identifier("b".to_string()),
        TokenKind::ParenClose,
        TokenKind::Out,
        TokenKind::ParenOpen,
        TokenKind::Out,
        TokenKind::ParenClose,
    ]);
    assert_eq!(tokenize(String::new()).unwrap(), Vec::<TokenKind>::new());
}

#[test]
fn keywords_ignore_case() {
    let toks = tokenize("inputs Outputs in oUT and Or not nand NOR xor xNoR".to_string()).unwrap();
    assert_eq!(toks, vec![
        TokenKind::Inputs,
        TokenKind::Outputs,
        TokenKind::In,
        TokenKind::Out,
        TokenKind::And,
        TokenKind::Or,
        TokenKind::Not,
        TokenKind::Nand,
        TokenKind::Nor,
        TokenKind::Xor,
        TokenKind::Xnor,
    ]);
    let toks = tokenize("Carry_Out andx".to_string()).unwrap();
    assert_eq!(toks, vec![
        TokenKind::Identifier("Carry_Out".to_string()),
        TokenKind::Identifier("andx".to_string()),
    ]);
}

#[test]
fn unicode_letters_and_blanks() {
    let toks = tokenize("ñame\u{00A0}x²\tq".to_string()).unwrap();
    assert_eq!(toks, vec![
        TokenKind::Identifier("ñame".to_string()),
        TokenKind::Identifier("x²".to_string()),
        TokenKind::Identifier("q".to_string()),
    ]);
}

#[test]
fn lexer_step_by_step() {
    let mut lx = Lexer::new("  ab_1 (\n)".to_string());
    assert_eq!(lx.get_next_token(), Ok(TokenKind::Identifier("ab_1".to_string())));
    assert_eq!(lx.get_next_token(), Ok(TokenKind::ParenOpen));
    assert_eq!(lx.get_next_token(), Ok(TokenKind::Newline));
    assert_eq!(lx.get_next_token(), Ok(TokenKind::ParenClose));
    assert_eq!(lx.get_next_token(), Ok(TokenKind::EOF));
    assert_eq!(lx.get_next_token(), Ok(TokenKind::EOF));
    let mut lx = Lexer::new("Nand rest".to_string());
    assert_eq!(lx.identifier(), TokenKind::Nand);
    assert_eq!(lx.get_next_token(), Ok(TokenKind::Identifier("rest".to_string())));
}

#[test]
fn unexpected_character() {
    let mut lx = Lexer::new("a\n  @b".to_string());
    assert_eq!(lx.get_next_token(), Ok(TokenKind::Identifier("a".to_string())));
    assert_eq!(lx.get_next_token(), Ok(TokenKind::Newline));
    assert_eq!(
        lx.get_next_token(),
        Err(LexerError::UnexpectedCharacter('@', Location { line: 2, column: 3 }))
    );
    assert_eq!(lx.get_next_token(), Ok(TokenKind::Identifier("b".to_string())));
    assert_eq!(
        tokenize("INPUTS a;".to_string()),
        Err(LexerError::UnexpectedCharacter(';', Location { line: 1, column: 9 }))
    );
    match parse_source("INPUTS a\n#".to_string()) {
        Err(SourceError::Lexical(LexerError::UnexpectedCharacter(c, loc))) => {
            assert_eq!(c, '#');
            assert_eq!((loc.line, loc.column), (2, 1));
        },
        other => panic!("unexpected result {:?}", other),
    }
}

fn unexpected(position: usize, expected: Expected, found: TokenClass) -> ParseError {
    ParseError::UnexpectedToken { position, expected, found }
}

#[test]
fn parser_errors() {
    let syntax = |src: &str| match parse_source(src.to_string()) {
        Err(SourceError::Syntax(e)) => e,
        other => panic!("unexpected result {:?}", other),
    };
    let tok = Expected::Token;
    assert_eq!(syntax("OUTPUTS a\n"), unexpected(0, tok(TokenClass::Inputs), TokenClass::Outputs));
    assert_eq!(
        syntax("INPUTS a\nINPUTS b\n"),
        unexpected(3, tok(TokenClass::Outputs), TokenClass::Inputs)
    );
    assert_eq!(
        syntax("INPUTS a, b"),
        ParseError::UnexpectedEnd { expected: tok(TokenClass::Newline) }
    );
    assert_eq!(syntax("INPUTS\n"), unexpected(1, Expected::Name, TokenClass::Newline));
    assert_eq!(
        syntax("INPUTS a\nOUTPUTS o\nAND g IN(a) OUT()\n"),
        unexpected(14, Expected::Name, TokenClass::ParenClose)
    );
    assert_eq!(
        syntax("INPUTS a\nOUTPUTS o\nAND IN(a) OUT(o)\n"),
        unexpected(8, tok(TokenClass::In), TokenClass::ParenOpen)
    );
    assert_eq!(
        syntax("INPUTS a\nOUTPUTS o\nAND g IN(a OUT(o)\n"),
        unexpected(11, tok(TokenClass::ParenClose), TokenClass::Out)
    );
    assert_eq!(
        syntax("INPUTS a\nOUTPUTS o\nAND g IN(a) OUT(o"),
        ParseError::UnexpectedEnd { expected: tok(TokenClass::ParenClose) }
    );
    assert_eq!(
        syntax("INPUTS a\nOUTPUTS o\nOUT\n"),
        unexpected(6, Expected::Statement, TokenClass::Out)
    );
    assert_eq!(
        syntax("INPUTS a\nOUTPUTS o\n, x\n"),
        unexpected(6, Expected::Statement, TokenClass::Comma)
    );
    assert_eq!(
        syntax("INPUTS a\nOUTPUTS o\nS IN(x) OUT(y) (\n)\nS IN(x) OUT(y) (\n)\n"),
        ParseError::DuplicateSubcircuit(19)
    );
    assert_eq!(
        syntax("INPUTS a\nOUTPUTS o\nS IN(x) OUT(y) (\nAND g IN(x) OUT(y)\n"),
        ParseError::UnexpectedEnd { expected: Expected::Statement }
    );
}

#[test]
fn parser_error_on_first_token() {
    let mut parser = Parser::new(vec![TokenKind::Outputs]);
    assert_eq!(
        parser.parse_program().unwrap_err(),
        unexpected(0, Expected::Token(TokenClass::Inputs), TokenClass::Outputs)
    );
    let mut parser = Parser::new(Vec::new());
    assert_eq!(
        parser.parse_program().unwrap_err(),
        ParseError::UnexpectedEnd { expected: Expected::Token(TokenClass::Inputs) }
    );
}

#[test]
fn input_columns_show_the_assignment() {
    let p = parse("INPUTS a\nOUTPUTS a\nNOT g IN(a) OUT(a)\n");
    assert_eq!(truth_table(&p).unwrap(), vec![vec![false, true], vec![true, false]]);
    let p = parse("INPUTS a, a\nOUTPUTS o\nAND g IN(a) OUT(o)\n");
    assert_eq!(truth_table(&p).unwrap(), vec![
        vec![false, false, false],
        vec![false, true, true],
        vec![true, false, false],
        vec![true, true, true],
    ]);
}

#[test]
fn header_lists_inputs_then_outputs() {
    let p = parse(INLINE_NAND);
    assert_eq!(table_header(&p), names(&["a", "b", "out"]));
    let p = parse("INPUTS x, y, z\nOUTPUTS s, c\n");
    assert_eq!(table_header(&p), names(&["x", "y", "z", "s", "c"]));
}

#[test]
fn keyword_lookup_on_upper_case_text() {
    assert_eq!(keyword_token("XNOR", "xnor"), TokenKind::Xnor);
    assert_eq!(keyword_token("INPUTS", "Inputs"), TokenKind::Inputs);
    assert_eq!(keyword_token("GATE1", "gate1"), TokenKind::Identifier("gate1".to_string()));
    assert_eq!(keyword_token("ANDX", "andX"), TokenKind::Identifier("andX".to_string()));
}

#[test]
fn token_classes() {
    assert_eq!(token_class(&TokenKind::Comma), TokenClass::Comma);
    assert_eq!(token_class(&TokenKind::Identifier("q".to_string())), TokenClass::Identifier);
    assert_eq!(token_class(&TokenKind::EOF), TokenClass::EOF);
}

#[test]
fn parser_over_tokens() {
    let mut toks = tokenize(INLINE_NAND.to_string()).unwrap();
    toks.push(TokenKind::EOF);
    toks.push(TokenKind::Comma);
    let mut parser = Parser::new(toks);
    let p = parser.parse_program().unwrap();
    assert_eq!(p.components.len(), 2);
    assert_eq!(p.components[0].identifier, "gate1");
    assert_eq!(p.components[0].inputs, names(&["a", "b"]));
    assert_eq!(p.components[0].outputs, names(&["temp"]));
    assert!(matches!(p.components[1].gate_type, GateType::Not));
}

#[test]
fn keyword_words_as_signal_names() {
    let p = parse("INPUTS In, b\nOUTPUTS OUT\nAND and IN(in, B) OUT(Out)\n");
    assert_eq!(p.inputs, names(&["in", "b"]));
    assert_eq!(p.outputs, names(&["out"]));
    assert_eq!(p.components[0].identifier, "and");
    assert_eq!(p.components[0].inputs, names(&["in", "B"]));
    let e = truth_table(&p).unwrap_err();
    assert_eq!(e.kind, EvalErrorKind::UnresolvedSignal);
    assert_eq!(e.name, "B");
}

#[test]
fn blank_lines_and_shared_lines() {
    let p = parse("INPUTS a\nOUTPUTS o\n\n\nNOT n IN(a) OUT(t) NOT m IN(t) OUT(o)\n\n");
    assert_eq!(p.components.len(), 2);
    assert_eq!(truth_table(&p).unwrap(), vec![vec![false, false], vec![true, true]]);
}

#[test]
fn items_reachable_from_lang() {
    let toks = tokenize(INLINE_NAND.to_string()).unwrap();
    let mut parser = lang::Parser::new(toks);
    let p: lang::Program = parser.parse_program().unwrap();
    assert!(matches!(p.components[0].gate_type, lang::GateType::And));
}
