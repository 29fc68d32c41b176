use liblog::ast::{apply, Ast, BinOp, EvalError, Node};
use liblog::minhash::State as MinHash;
use liblog::nickbrain::{parse as parse_program, parse_single, Cmd, Halt, BF};
use liblog::parser::parse;
use liblog::simhash::{push_hex8, State as SimHash};

fn text(chars: Vec<char>) -> String {
    chars.into_iter().collect()
}

#[test]
fn hex_is_eight_digits_in_lower_case() {
    let mut out = vec!['x'];
    push_hex8(0x0012_abef, &mut out);
    assert_eq!(text(out), "x0012abef");
    let mut out = Vec::new();
    push_hex8(u32::MAX, &mut out);
    push_hex8(0, &mut out);
    assert_eq!(text(out), "ffffffff00000000");
}

#[test]
fn simhash_takes_the_majority_of_each_bit() {
    let mut state = SimHash::new();
    assert_eq!(state.fingerprint(), 0);
    state.push(0b1100);
    state.push(0b1010);
    state.push(0b1001);
    // Bit 3 is set in all three, the others in one of three.
    assert_eq!(state.fingerprint(), 0b1000);
    assert_eq!(text(state.render()), "00000008");
    state.push(u32::MAX);
    state.push(u32::MAX);
    state.push(u32::MAX);
    state.push(u32::MAX);
    assert_eq!(state.fingerprint(), u32::MAX);
    assert_eq!(text(state.render()), "ffffffff");
    // A tie is no majority.
    let mut tie = SimHash::new();
    tie.push(1);
    tie.push(0);
    assert_eq!(tie.fingerprint(), 0);
}

#[test]
fn minhash_keeps_the_five_smallest_and_largest() {
    let state = MinHash::new();
    assert_eq!(
        text(state.render()),
        "ffffffff,ffffffff,ffffffff,ffffffff,ffffffff,|00000000,00000000,00000000,00000000,00000000,"
    );
    let mut state = MinHash::new();
    for val in [7u32, 3, 9, 3, 1, 8, 2, 7, 10, 6] {
        state.push(val);
    }
    assert_eq!(
        text(state.render()),
        "00000001,00000002,00000003,00000006,00000007,|0000000a,00000009,00000008,00000007,00000006,"
    );
    let mut short = MinHash::new();
    short.push(0x10);
    short.push(0x20);
    assert_eq!(
        text(short.render()),
        "00000010,00000020,ffffffff,ffffffff,ffffffff,|00000020,00000010,00000000,00000000,00000000,"
    );
    // What is there already is not taken again.
    let mut same = MinHash::new();
    same.push(0);
    same.push(u32::MAX);
    assert_eq!(
        text(same.render()),
        "00000000,ffffffff,ffffffff,ffffffff,ffffffff,|ffffffff,00000000,00000000,00000000,00000000,"
    );
}

fn run(program: &[u8], input: &[u8], fuel: u64) -> (Result<(), Halt>, Vec<u8>, u64) {
    let prog = parse_program(program).expect("the program is well-formed");
    let mut bf = BF::new();
    let mut at = 0usize;
    let mut out = Vec::new();
    let mut fuel = fuel;
    let r = bf.exec(&prog, input, &mut at, &mut out, &mut fuel);
    (r, out, fuel)
}

#[test]
fn tape_machine_parses_its_programs() {
    assert!(matches!(parse_single(b'>'), Some(Cmd::ToRight)));
    assert!(matches!(parse_single(b'<'), Some(Cmd::ToLeft)));
    assert!(matches!(parse_single(b'+'), Some(Cmd::Succ)));
    assert!(matches!(parse_single(b'-'), Some(Cmd::Pred)));
    assert!(matches!(parse_single(b'.'), Some(Cmd::Write)));
    assert!(matches!(parse_single(b','), Some(Cmd::Read)));
    assert!(matches!(parse_single(b' '), Some(Cmd::Space)));
    assert!(matches!(parse_single(b'\n'), Some(Cmd::Space)));
    assert!(parse_single(b'[').is_none());
    assert!(parse_single(b'x').is_none());

    let prog = parse_program(b"+[-> +]\n.").unwrap();
    assert_eq!(prog.len(), 4);
    match &prog[1] {
        Cmd::Cycle(body) => assert_eq!(body.len(), 4),
        other => panic!("a cycle was expected: {:?}", other),
    }
    assert_eq!(parse_program(b"").unwrap().len(), 0);
    assert_eq!(parse_program(b"[]").unwrap().len(), 1);
    // A cycle holds single commands only, and has to be closed.
    assert!(parse_program(b"[[+]]").is_none());
    assert!(parse_program(b"[+").is_none());
    assert!(parse_program(b"+]").is_none());
    assert!(parse_program(b"+x").is_none());
}

#[test]
fn tape_machine_runs() {
    // Reads two bytes and writes their sum.
    let (r, out, _) = run(b",>,[-<+>]<.", &[3, 4], 1000);
    assert_eq!(r, Ok(()));
    assert_eq!(out, vec![7]);
    // A byte wraps round.
    let (r, out, fuel) = run(b"-.++.", &[], 100);
    assert_eq!(r, Ok(()));
    assert_eq!(out, vec![255, 1]);
    assert_eq!(fuel, 95);
    // Spaces cost fuel and do nothing.
    let (r, out, fuel) = run(b" \n", &[], 5);
    assert_eq!((r, out, fuel), (Ok(()), vec![], 3));
}

#[test]
fn tape_machine_stops() {
    assert_eq!(run(b"<", &[], 10).0, Err(Halt::OffTape));
    assert_eq!(run(b",", &[], 10).0, Err(Halt::EndOfInput));
    assert_eq!(run(b",,", &[1], 10).0, Err(Halt::EndOfInput));
    // A cycle that never ends uses up the fuel.
    let (r, out, fuel) = run(b"+[.]", &[], 8);
    assert_eq!(r, Err(Halt::OutOfFuel));
    assert_eq!(fuel, 0);
    assert_eq!(out, vec![1, 1, 1]);
    assert_eq!(run(b"+", &[], 0).0, Err(Halt::OutOfFuel));
}

fn value(text: &str, env: &[(String, i32)]) -> Result<i32, EvalError> {
    parse(text).expect("the text is an expression").eval(env)
}

#[test]
fn constants_are_folded_while_parsing() {
    let node = parse("(((5)+42)*8)").unwrap();
    assert!(matches!(node.ast, Ast::Literal(376)), "constant propagation failed");
    assert_eq!(node.eval(&[]), Ok(376));

    let node = parse("8-2-2").unwrap();
    assert!(matches!(node.ast, Ast::Literal(4)), "constant propagation failed");
    // The right operand of a product is a product of its own.
    let node = parse("8/2/2").unwrap();
    assert!(matches!(node.ast, Ast::Literal(8)));
    let node = parse("-7/2").unwrap();
    assert!(matches!(node.ast, Ast::Literal(-3)));
    // What has no value stays as it is.
    let node = parse("1/0").unwrap();
    assert!(matches!(node.ast, Ast::Div(_, _)));
    assert!(node.is_const);
    assert_eq!(node.eval(&[]), Err(EvalError::DivisionByZero));
    let node = parse("2147483647+1").unwrap();
    assert!(matches!(node.ast, Ast::Add(_, _)));
    assert_eq!(node.eval(&[]), Err(EvalError::Overflow));
}

#[test]
fn registers_are_counted() {
    assert_eq!(parse("a+b+c+d+e").unwrap().stack_size, 1);
    assert_eq!(parse("a*b*c*d*e").unwrap().stack_size, 1);
    assert_eq!(parse("(a+b)+(c+d)*e").unwrap().stack_size, 2);
    assert_eq!(parse("a+b+c*d+e").unwrap().stack_size, 2);
    let node = parse("a+b+c*d+e").unwrap();
    assert_eq!(node.weight, 4);
    assert!(!node.is_const);
    assert_eq!(parse("a+1").unwrap().weight, 1);
    assert_eq!(parse("7").unwrap().stack_size, 0);
}

#[test]
fn expressions_are_evaluated() {
    let env = vec![("a".to_string(), 6), ("bc".to_string(), -2), ("a".to_string(), 100)];
    assert_eq!(value("a*bc+1", &env), Ok(-11));
    assert_eq!(value("(a-bc)/(bc+bc)", &env), Ok(-2));
    assert_eq!(value("a+z", &env), Err(EvalError::VarNotFound));
    assert_eq!(value("z+1/0", &env), Err(EvalError::VarNotFound));
    assert_eq!(value("a/(bc+2)", &env), Err(EvalError::DivisionByZero));
    assert_eq!(value("+5--3", &[]), Ok(8));
    assert_eq!(value("-2147483648", &[]), Ok(i32::MIN));
}

#[test]
fn what_is_no_expression_is_refused() {
    for text in ["", "1+", "(1", "1)", "a b", "2147483648", "--5", "1 + 2", "a1", "*3", "()"] {
        assert!(parse(text).is_none(), "{:?} should not parse", text);
    }
}

#[test]
fn operations_are_checked() {
    assert_eq!(apply(BinOp::Add, i32::MAX, 1), Err(EvalError::Overflow));
    assert_eq!(apply(BinOp::Sub, i32::MIN, 1), Err(EvalError::Overflow));
    assert_eq!(apply(BinOp::Mul, 65536, 65536), Err(EvalError::Overflow));
    assert_eq!(apply(BinOp::Div, i32::MIN, -1), Err(EvalError::Overflow));
    assert_eq!(apply(BinOp::Div, 7, 0), Err(EvalError::DivisionByZero));
    assert_eq!(apply(BinOp::Div, 7, -2), Ok(-3));
    assert_eq!(apply(BinOp::Div, -7, -2), Ok(3));
    assert_eq!(apply(BinOp::Mul, -3, 5), Ok(-15));
    let sum = Node::add(Node::literal(2), Node::var("x".to_string()));
    assert_eq!(sum.eval(&[("x".to_string(), 40)]), Ok(42));
    assert!(matches!(Node::sub(Node::literal(2), Node::literal(5)).ast, Ast::Literal(-3)));
    assert!(matches!(Node::mul(Node::literal(2), Node::literal(5)).ast, Ast::Literal(10)));
    assert!(matches!(Node::div(Node::literal(9), Node::literal(2)).ast, Ast::Literal(4)));
}
