use bytecode_vm::bytecode::ByteCode;
use bytecode_vm::interpreter::InterpretError;
use bytecode_vm::parser::ParseErrorKind;

fn parse(text: &str) -> Vec<String> {
    ByteCode::parse(text)
        .expect("program should parse")
        .iter()
        .map(|b| format!("{:?}", b))
        .collect()
}

#[test]
fn every_mnemonic_parses() {
    let text = "LOAD_VAL -12\nWRITE_VAR x\nREAD_VAR x\nJUMP 3\nJE 0\nADD\nSUB\nMULTIPLY\nDIVIDE\nRETURN_VALUE";
    assert_eq!(
        parse(text),
        vec![
            "Load(-12)", "Write(\"x\")", "Read(\"x\")", "Jump(3)", "Je(0)", "Add", "Sub", "Mul",
            "Div", "Ret"
        ]
    );
}

#[test]
fn blank_lines_take_no_slot() {
    assert_eq!(parse("\nLOAD_VAL 1\n\n   \nRETURN_VALUE\n\n"), vec!["Load(1)", "Ret"]);
    assert_eq!(parse(""), Vec::<String>::new());
}

#[test]
fn punctuation_and_carriage_returns_are_stripped() {
    assert_eq!(
        parse("LOAD_VAL 7;\r\nWRITE_VAR my.var!\r\nREAD_VAR myvar\r\nRETURN_VALUE\r\n"),
        vec!["Load(7)", "Write(\"myvar\")", "Read(\"myvar\")", "Ret"]
    );
    assert_eq!(parse("ADD  \nSUB ;"), vec!["Add", "Sub"]);
}

#[test]
fn integer_limits_parse() {
    assert_eq!(parse("LOAD_VAL 9223372036854775807"), vec!["Load(9223372036854775807)"]);
    assert_eq!(parse("LOAD_VAL -9223372036854775808"), vec!["Load(-9223372036854775808)"]);
    assert_eq!(parse("LOAD_VAL 007"), vec!["Load(7)"]);
}

#[test]
fn unknown_mnemonic_is_rejected() {
    let e = ByteCode::parse("FOO 1").unwrap_err();
    assert_eq!(e.kind, ParseErrorKind::UnknownMnemonic);
    assert_eq!(e.line, "FOO 1");
    let e = ByteCode::parse("load_val 1").unwrap_err();
    assert_eq!(e.kind, ParseErrorKind::UnknownMnemonic);
}

#[test]
fn unknown_mnemonic_is_never_executed() {
    match ByteCode::interpret("FOO 1\nRETURN_VALUE".to_string()) {
        Err(InterpretError::Parse(e)) => assert_eq!(e.kind, ParseErrorKind::UnknownMnemonic),
        other => panic!("unexpected {:?}", other),
    }
}

#[test]
fn malformed_arguments_are_rejected() {
    for line in [
        "LOAD_VAL",
        "LOAD_VAL x",
        "LOAD_VAL 1 2",
        "LOAD_VAL 9223372036854775808",
        "LOAD_VAL -9223372036854775809",
        "LOAD_VAL -",
        "JUMP -1",
        "JE",
        "JUMP 99999999999999999999999",
        "WRITE_VAR",
        "READ_VAR ;;",
        "ADD 1",
        "RETURN_VALUE x",
    ] {
        let e = ByteCode::parse(line).unwrap_err();
        assert_eq!(e.kind, ParseErrorKind::MalformedArgument, "{}", line);
        assert_eq!(e.line, line);
    }
}

#[test]
fn first_bad_line_decides_the_error() {
    let e = ByteCode::parse("LOAD_VAL 1\nJUMP x\nFOO\nRETURN_VALUE").unwrap_err();
    assert_eq!(e.kind, ParseErrorKind::MalformedArgument);
    assert_eq!(e.line, "JUMP x");
}

#[test]
fn single_instruction_parses() {
    let b = ByteCode::parse_instruction("WRITE_VAR abc1").unwrap();
    assert_eq!(format!("{:?}", b), "Write(\"abc1\")");
    let e = ByteCode::parse_instruction("").unwrap_err();
    assert_eq!(e.kind, ParseErrorKind::UnknownMnemonic);
}

#[test]
fn interpret_runs_text() {
    let text = "LOAD_VAL 20\nLOAD_VAL 6\nSUB\nRETURN_VALUE\n".to_string();
    assert_eq!(ByteCode::interpret(text).ok(), Some(14));
}
