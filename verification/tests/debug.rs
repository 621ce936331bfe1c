use jqawk::compiler::compile;
use jqawk::debug::{format_op, format_rules};
use jqawk::vm::{Literal, OpCode};

#[test]
fn instructions_are_written_by_name() {
    assert_eq!(format_op(&OpCode::GetField(String::new())), "GetField ");
    assert_eq!(format_op(&OpCode::GetField("root".to_string())), "GetField root");
    assert_eq!(format_op(&OpCode::GetMember), "GetMember");
    assert_eq!(format_op(&OpCode::GetGlobal("NR".to_string())), "GetGlobal NR");
    assert_eq!(format_op(&OpCode::SetGlobal("x".to_string())), "SetGlobal x");
    assert_eq!(format_op(&OpCode::Equal), "Equal");
    assert_eq!(format_op(&OpCode::And), "And");
    assert_eq!(format_op(&OpCode::Or), "Or");
    assert_eq!(format_op(&OpCode::Add), "Add");
    assert_eq!(format_op(&OpCode::Subtract), "Subtract");
    assert_eq!(format_op(&OpCode::Multiply), "Multiply");
    assert_eq!(format_op(&OpCode::Divide), "Divide");
    assert_eq!(format_op(&OpCode::Greater), "Greater");
    assert_eq!(format_op(&OpCode::Match), "Match");
    assert_eq!(format_op(&OpCode::Negate), "Negate");
    assert_eq!(format_op(&OpCode::Print(0)), "Print 0");
    assert_eq!(format_op(&OpCode::Print(12)), "Print 12");
    assert_eq!(format_op(&OpCode::Print(1005)), "Print 1005");
}

#[test]
fn constants_are_written_with_their_kind() {
    assert_eq!(
        format_op(&OpCode::PushImmediate(Literal::Str("hi".to_string()))),
        "PushImmediate Str(\"hi\")"
    );
    assert_eq!(
        format_op(&OpCode::PushImmediate(Literal::Regex("a.c".to_string()))),
        "PushImmediate Regex(\"a.c\")"
    );
    assert_eq!(
        format_op(&OpCode::PushImmediate(Literal::Num("42".to_string()))),
        "PushImmediate Num(42)"
    );
}

#[test]
fn rules_are_listed_under_one_heading() {
    let rules = compile("BEGIN { x = 1 } $ > 2 { print $, x }").unwrap();
    let expected = "\
rule
  kind: Begin
  pattern
body
    PushImmediate Num(1)
    SetGlobal x
  kind: Match
  pattern
    GetField 
    PushImmediate Num(2)
    Greater
body
    GetField 
    GetGlobal x
    Print 2
";
    assert_eq!(format_rules(&rules), expected);
    assert_eq!(format_rules(&Vec::new()), "rule\n");
}
