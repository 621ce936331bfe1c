use jqawk::compiler::{compile, compile_selector, JqaRule, JqaRuleKind};
use jqawk::json::{read, Shape};
use jqawk::pattern::search;
use jqawk::semantics::NumOp;
use jqawk::vm::{from_json, verdict, Action, Literal, Loaded, OpCode, Reply, Request, RuntimeError, Value, Vm};

fn answer(request: Request, out: &mut String) -> Reply {
    match request {
        Request::Parse(text) => match text.parse::<f64>() {
            Ok(v) => Reply::Number(v.to_bits()),
            Err(_) => Reply::NoNumber,
        },
        Request::Calc(op, l, r) => {
            let (l, r) = (f64::from_bits(l), f64::from_bits(r));
            let v = match op {
                NumOp::Add => l + r,
                NumOp::Subtract => l - r,
                NumOp::Multiply => l * r,
                NumOp::Divide => l / r,
            };
            Reply::Number(v.to_bits())
        }
        Request::Format(n) => Reply::Text(format!("{}", f64::from_bits(n))),
        Request::Print(text) => {
            out.push_str(&text);
            Reply::Printed
        }
    }
}

fn finish(vm: &mut Vm, first: Action) -> (String, Result<(), String>) {
    let mut out = String::new();
    let mut action = first;
    loop {
        match action {
            Action::Ask(request) => {
                let reply = answer(request, &mut out);
                action = vm.resume(reply);
            }
            Action::Done => return (out, Ok(())),
            Action::Failed(e) => return (out, Err(e.msg)),
        }
    }
}

fn outcome(program: &str, root: &str, input: &str) -> (String, Result<(), String>) {
    let rules = compile(program).unwrap();
    let selector = compile_selector(root).unwrap();
    let mut vm = Vm::new(false);
    let first = vm.run(input.as_bytes(), selector, rules);
    finish(&mut vm, first)
}

fn output(program: &str, input: &str) -> String {
    let (out, result) = outcome(program, "$", input);
    assert_eq!(result, Ok(()));
    out
}

fn failure(program: &str, input: &str) -> String {
    outcome(program, "$", input).1.unwrap_err()
}

fn code(ops: Vec<OpCode>) -> (String, Result<(), String>) {
    let rules = vec![JqaRule { pattern: vec![], body: ops, kind: JqaRuleKind::Begin }];
    let mut vm = Vm::new(false);
    let first = vm.run(b"[]", vec![OpCode::GetField(String::new())], rules);
    finish(&mut vm, first)
}

fn num(s: &str) -> OpCode {
    OpCode::PushImmediate(Literal::Num(s.to_string()))
}

fn text(s: &str) -> OpCode {
    OpCode::PushImmediate(Literal::Str(s.to_string()))
}

#[test]
fn a_new_machine_is_at_rest() {
    let mut vm = Vm::new(true);
    assert!(vm.dbg());
    assert!(vm.halted());
    assert!(vm.is_wf());
    assert_eq!(vm.resume(Reply::Printed), Action::Done);
    assert!(!Vm::new(false).dbg());
}

#[test]
fn begin_rules_run_before_end_rules_whatever_the_order() {
    for input in ["[]", "{}", "[1, 2]", "{\"a\": 1}"] {
        assert_eq!(output("END { print \"end\" } BEGIN { print \"begin\" }", input), "begin\nend\n");
    }
}

#[test]
fn rules_run_in_the_order_of_the_text() {
    assert_eq!(
        output(
            "BEGIN { print \"a\" } { print \"x\", $ } BEGIN { print \"b\" } { print \"y\", $ } END { print \"c\" } END { print \"d\" }",
            "[1, 2]"
        ),
        "a\nb\nx 1\ny 1\nx 2\ny 2\nc\nd\n"
    );
}

#[test]
fn the_values_of_an_object_are_visited_in_the_order_of_the_document() {
    assert_eq!(output("{ print }", "{\"zebra\": 1, \"apple\": \"two\", \"mango\": [3]}"), "1\ntwo\n[3]\n");
}

#[test]
fn numbers_print_without_a_needless_fraction() {
    assert_eq!(output("{ print }", "[6, 6.0, 6.5, -3, 1e3, 0.1, 1e21]"), "6\n6\n6.5\n-3\n1000\n0.1\n1000000000000000000000\n");
    assert_eq!(output("BEGIN { print 7 / 2, 6 / 3, 007 }", "[]"), "3.5 2 7\n");
}

#[test]
fn values_print_by_their_kind() {
    assert_eq!(
        output("{ print $ }", "[\"text\", 5, [1, \"a\", {\"k\": null}], {\"b\": 1.5, \"a\": true}, null, true, false]"),
        "text\n5\n[1,\"a\",{\"k\":null}]\n{\"b\":1.5,\"a\":true}\n0\n0\n0\n"
    );
    assert_eq!(output("BEGIN { print /a.c/, \"s\" }", "[]"), "/a.c/ s\n");
}

#[test]
fn print_joins_its_arguments_with_single_spaces() {
    assert_eq!(output("{ print $[0], $[1], $[2] }", "[[1, \"b\", [3]]]"), "1 b [3]\n");
    assert_eq!(output("BEGIN { print \"\", \"\" }", "[]"), " \n");
}

#[test]
fn print_without_arguments_ends_the_body() {
    assert_eq!(output("{ print; print \"never\" }", "[1, 2]"), "1\n2\n");
    assert_eq!(output("{ x = 1; print; x = 2 } END { print x }", "[1]"), "1\n1\n");
}

#[test]
fn nr_counts_the_elements() {
    assert_eq!(output("{ print NR, $ }", "[2, 4, 6, 8]"), "1 2\n2 4\n3 6\n4 8\n");
    assert_eq!(output("BEGIN { print NR } END { print NR }", "[1, 2, 3, 4]"), "0\n4\n");
    assert_eq!(output("END { print NR }", "{\"a\": 1, \"b\": 2}"), "2\n");
    assert_eq!(output("END { print NR }", "[]"), "0\n");
}

#[test]
fn nr_is_counted_without_the_host_until_a_rule_stores_it() {
    let mut vm = Vm::new(false);
    let rules = compile("$ == \"set\" { NR = 10 }").unwrap();
    let first = vm.run(b"[\"a\", \"set\", \"b\", \"c\"]", compile_selector("$").unwrap(), rules);
    assert_eq!(first, Action::Ask(Request::Parse("10".to_string())));
    let ten = 10.0f64.to_bits();
    let eleven = 11.0f64.to_bits();
    let one = 1.0f64.to_bits();
    assert_eq!(vm.resume(Reply::Number(ten)), Action::Ask(Request::Calc(NumOp::Add, ten, one)));
    assert_eq!(vm.resume(Reply::Number(eleven)), Action::Ask(Request::Calc(NumOp::Add, eleven, one)));
    assert_eq!(vm.resume(Reply::Number(12.0f64.to_bits())), Action::Done);
}

#[test]
fn nr_goes_on_from_what_a_rule_stores() {
    assert_eq!(output("{ print NR; NR = 10 }", "[1, 2, 3]"), "1\n11\n11\n");
    assert_eq!(output("{ print NR; NR = \"5\" }", "[1, 2]"), "1\n6\n");
    assert_eq!(output("{ print NR; NR = \"x\" }", "[1, 2]"), "1\n1\n");
    assert_eq!(output("{ print NR; NR = $ }", "[[1], 2]"), "1\n1\n");
}

#[test]
fn dollar_is_the_current_element() {
    assert_eq!(output("{ print $ }", "[[1, 2], \"s\", {\"a\": 1}]"), "[1,2]\ns\n{\"a\":1}\n");
    assert_eq!(output("BEGIN { print $ } END { print $ }", "[1, 2]"), "[1,2]\n[1,2]\n");
}

#[test]
fn the_selector_chooses_what_is_iterated() {
    let (out, result) = outcome("BEGIN { print $ } { print $ } END { print $ }", "$.items", "{\"items\": [1, 2], \"other\": 3}");
    assert_eq!(result, Ok(()));
    assert_eq!(out, "[1,2]\n1\n2\n[1,2]\n");
    let (out, result) = outcome("{ print $ }", "$[1]", "[[1], [2, 3]]");
    assert_eq!(result, Ok(()));
    assert_eq!(out, "2\n3\n");
}

#[test]
fn begin_rules_run_before_the_root_is_found_wanting() {
    let (out, result) = outcome("BEGIN { print \"begin\" } END { print \"end\" }", "$", "5");
    assert_eq!(out, "begin\n");
    assert_eq!(result, Err("JSON must be an object or an array, got number".to_string()));
    assert_eq!(failure("{ print }", "\"text\""), "JSON must be an object or an array, got string");
    assert_eq!(failure("{ print }", "null"), "JSON must be an object or an array, got number");
    let (_, result) = outcome("{ print }", "$[0]", "[\"x\"]");
    assert_eq!(result, Err("JSON must be an object or an array, got string".to_string()));
}

#[test]
fn a_document_that_does_not_parse_fails_the_run() {
    let (out, result) = outcome("BEGIN { print 1 }", "$", "[1, 2");
    assert_eq!(out, "");
    let msg = result.unwrap_err();
    assert!(msg.starts_with("error parsing JSON: "), "{}", msg);
    assert!(failure("{ print }", "").starts_with("error parsing JSON: "));
    assert!(failure("{ print }", "[1] x").starts_with("error parsing JSON: "));
}

#[test]
fn variables_are_zero_until_they_are_set_and_stay_set() {
    assert_eq!(output("BEGIN { print x } { x = x + $ } END { print x }", "[1, 2, 3]"), "0\n6\n");
    assert_eq!(output("BEGIN { name = \"v\" } { print name, $ }", "[1]"), "v 1\n");
}

#[test]
fn array_members() {
    assert_eq!(output("{ print $[0], $[2] }", "[[1, 2, 3], [10, 20, 30]]"), "1 3\n10 30\n");
    assert_eq!(output("{ print $[5] }", "[[1, 2, 3]]"), "0\n");
    assert_eq!(output("{ print $[1 / 2], $[3 / 2], $[0 - 1] }", "[[7, 8, 9]]"), "7 8 7\n");
    assert_eq!(output("{ print $[1][0] }", "[[1, [\"deep\"]]]"), "deep\n");
    assert_eq!(failure("{ print $[\"a\"] }", "[[1]]"), "cannot index an array with a string");
    assert_eq!(failure("{ print $[$] }", "[[1]]"), "cannot index an array with a array");
    assert_eq!(failure("{ print $[/a/] }", "[[1]]"), "cannot index an array with a regex");
}

#[test]
fn object_members() {
    assert_eq!(output("{ print $.age; }", "[{\"age\": 10}, {\"age\": 56.5}, {\"age\": \"old\"}]"), "10\n56.5\nold\n");
    assert_eq!(output("{ print $[\"a b\"], $.n.m }", "[{\"a b\": 1, \"n\": {\"m\": [2]}}]"), "1 [2]\n");
    assert_eq!(output("{ print $[42], $[1 + 1] }", "[{\"42\": \"answer\", \"2\": \"two\"}]"), "answer two\n");
    assert_eq!(output("{ print $[1 / 2] }", "[{\"0.5\": \"half\"}]"), "half\n");
    assert_eq!(output("{ print $.n, $.t }", "[{\"n\": null, \"t\": true}]"), "0 0\n");
    assert_eq!(failure("{ print $.missing }", "[{\"a\": 1}]"), "unknown key missing");
    assert_eq!(failure("{ print $[7] }", "[{\"a\": 1}]"), "unknown key 7");
    assert_eq!(failure("{ print $[$] }", "[{\"a\": 1}]"), "cannot access member on object with object");
    assert_eq!(failure("{ print $[/a/] }", "[{\"a\": 1}]"), "cannot access member on object with regex");
}

#[test]
fn only_arrays_and_objects_have_members() {
    assert_eq!(failure("{ print $.a }", "[1]"), "can only access members on objects or arrays, found number");
    assert_eq!(failure("{ print $[0] }", "[\"s\"]"), "can only access members on objects or arrays, found string");
    assert_eq!(failure("{ print /r/[0] }", "[1]"), "can only access members on objects or arrays, found regex");
}

#[test]
fn equality() {
    assert_eq!(output("$[0] == $[1]", "[[1, 2], [3, 3], [4, 5]]"), "[3,3]\n");
    assert_eq!(output("$[0] == $[1] { print \"same\" }", "[[\"a\", \"a\"], [\"a\", \"b\"], [1, \"1\"], [[1], [1]], [null, 0], [1.0, 1]]"), "same\nsame\nsame\n");
    assert_eq!(output("BEGIN { print 1 == 1, 1 == 2, \"a\" == \"a\", \"1\" == 1, 0 / 0 == 0 / 0 }", "[]"), "1 0 1 0 0\n");
}

#[test]
fn logic_is_by_truth_values() {
    assert_eq!(
        output("BEGIN { print 1 && 2, 1 && 0, 0 || 3, 0 || 0, \"a\" && \"b\", \"\" || 0, \"0\" && 1, /r/ || 0 }", "[]"),
        "1 0 1 0 1 0 1 0\n"
    );
    assert_eq!(output("$ { print \"yes\" }", "[0, 1, \"\", \"x\", [1], {\"a\": 1}, null, -2]"), "yes\nyes\nyes\n");
}

#[test]
fn arithmetic() {
    assert_eq!(output("BEGIN { print 2 + 4; print 2 - 1; print 2 * 4; print 6 / 3; }", "[]"), "6\n1\n8\n2\n");
    assert_eq!(output("BEGIN { print 1 / 0, 0 - 1 / 0, 0 / 0 }", "[]"), "inf -inf NaN\n");
    assert_eq!(output("BEGIN { print \"3\" + 4, \"2.5\" * \"2\", \"x\" + 1, \"\" + 1, \" 3\" + 1 }", "[]"), "7 5 1 1 1\n");
    assert_eq!(output("{ print $ + 1 }", "[[1], {\"a\": 1}, null, \"41\"]"), "1\n1\n1\n42\n");
    assert_eq!(output("BEGIN { print /r/ + 2, 10 - 2 - 3, 2 * 3 + 4, 2 + 3 * 4 }", "[]"), "2 11 10 14\n");
}

#[test]
fn comparison() {
    assert_eq!(output("$ > \"S\"", "[\"Clive\", \"Tony\", \"S\", \"Sa\", \"s\"]"), "Tony\nSa\ns\n");
    assert_eq!(output("$ > 10", "[5, 10, 11, \"9\", \"100\", \"abc\", [1]]"), "11\n100\n");
    assert_eq!(output("BEGIN { print 2 > 1, 1 > 2, 1 > 1, \"b\" > \"a\", \"a\" > \"b\", \"10\" > \"9\", \"10\" > 9, 0 / 0 > 1, 1 > 0 / 0 }", "[]"), "1 0 0 1 0 0 1 0 0\n");
    assert_eq!(output("BEGIN { print \"é\" > \"z\", \"z\" > \"é\", \"ab\" > \"a\", \"a\" > \"ab\", \"\" > \"\" }", "[]"), "1 0 1 0 0\n");
}

#[test]
fn matching() {
    assert_eq!(output("$ ~ /Asia/", "[\"Asia\", \"Europe\", \"Eurasia\", \"South Asia\"]"), "Asia\nSouth Asia\n");
    assert_eq!(output("$ !~ /Asia/", "[\"Asia\", \"Europe\"]"), "Europe\n");
    assert_eq!(output("$ ~ /^a.c$/ { print \"hit\", $ }", "[\"abc\", \"xabc\", \"a/c\"]"), "hit abc\nhit a/c\n");
    assert_eq!(output("$ ~ /a\\/c/", "[\"abc\", \"a/c\"]"), "a/c\n");
    assert_eq!(failure("$ ~ /a/", "[1]"), "can only match a string against a regex");
    assert_eq!(failure("$ ~ \"a\"", "[\"a\"]"), "can only match a string against a regex");
    assert_eq!(failure("/a/ ~ $", "[\"a\"]"), "can only match a string against a regex");
    let msg = failure("$ ~ /(/", "[\"a\"]");
    assert!(msg.starts_with("invalid regex: "), "{}", msg);
    assert!(msg.len() > "invalid regex: ".len());
}

#[test]
fn no_match_is_the_negation_of_match() {
    for (text, pattern) in [("Asia", "Asia"), ("Europe", "Asia"), ("", ""), ("abc", "^b"), ("abc", "b")] {
        let input = format!("[\"{}\"]", text);
        let hit = output(&format!("{{ print $ ~ /{}/ }}", pattern), &input);
        let miss = output(&format!("{{ print $ !~ /{}/ }}", pattern), &input);
        assert!(hit == "1\n" || hit == "0\n");
        assert_eq!(miss, if hit == "1\n" { "0\n" } else { "1\n" });
    }
}

#[test]
fn negation_is_for_numbers() {
    assert_eq!(code(vec![num("0"), OpCode::Negate, num("5"), OpCode::Negate, OpCode::Print(2)]).0, "1 0\n");
    assert_eq!(code(vec![text("a"), OpCode::Negate]).1, Err("can only negate a number".to_string()));
    assert_eq!(code(vec![OpCode::Negate]).1, Err("attempted to pop an empty stack".to_string()));
}

#[test]
fn an_empty_stack_cannot_be_popped() {
    for op in [
        OpCode::GetMember,
        OpCode::Equal,
        OpCode::And,
        OpCode::Or,
        OpCode::Add,
        OpCode::Subtract,
        OpCode::Multiply,
        OpCode::Divide,
        OpCode::Greater,
        OpCode::Match,
    ] {
        assert_eq!(code(vec![op.duplicate()]).1, Err("attempted to pop an empty stack".to_string()));
        assert_eq!(code(vec![num("1"), op]).1, Err("attempted to pop an empty stack".to_string()));
    }
    assert_eq!(code(vec![OpCode::SetGlobal("x".to_string())]).1, Err("attempted to pop an empty stack".to_string()));
    assert_eq!(code(vec![num("1"), OpCode::Print(2)]).1, Err("attempted to pop an empty stack".to_string()));
    assert_eq!(failure("{ a = b = 1 }", "[1]"), "attempted to pop an empty stack");
}

#[test]
fn fields_are_known_by_name() {
    let field = |name: &str| vec![OpCode::GetField(name.to_string()), OpCode::Print(1)];
    assert_eq!(code(field("")).0, "[]\n");
    assert_eq!(code(field("root")).0, "[]\n");
    assert_eq!(code(field("other")).1, Err("unknown field: other".to_string()));
}

#[test]
fn patterns_and_bodies_leave_the_stack_as_they_found_it() {
    let mut vm = Vm::new(false);
    let rules = compile("BEGIN { x = 1 } $ > 1 { print $, NR; y = $ + x } END { print x, y }").unwrap();
    let first = vm.run(b"[\"2\", 3, 0]", compile_selector("$").unwrap(), rules);
    assert_eq!(finish(&mut vm, first), ("2 1\n3 2\n1 4\n".to_string(), Ok(())));
    let probe = vec![JqaRule { pattern: vec![], body: vec![OpCode::Print(1)], kind: JqaRuleKind::Begin }];
    let second = vm.run(b"[]", compile_selector("$").unwrap(), probe);
    assert_eq!(finish(&mut vm, second), (String::new(), Err("attempted to pop an empty stack".to_string())));
}

#[test]
fn a_pattern_must_leave_a_value() {
    assert_eq!(failure("x = 1 { print }", "[1]"), "expected one value on the stack after pattern");
    let rules = vec![JqaRule { pattern: vec![num("1"), OpCode::Print(1)], body: vec![], kind: JqaRuleKind::Match }];
    let mut vm = Vm::new(false);
    let first = vm.run(b"[1]", vec![OpCode::GetField(String::new())], rules);
    assert_eq!(finish(&mut vm, first), ("1\n".to_string(), Err("expected one value on the stack after pattern".to_string())));
}

#[test]
fn a_selector_must_leave_a_value() {
    let mut vm = Vm::new(false);
    let first = vm.run(b"[1]", vec![], vec![]);
    assert_eq!(first, Action::Failed(RuntimeError { msg: "expected a value on the stack after the selector".to_string() }));
    assert_eq!(vm.resume(Reply::Printed), Action::Failed(RuntimeError { msg: "expected a value on the stack after the selector".to_string() }));
}

#[test]
fn a_run_that_failed_prints_what_came_before() {
    let (out, result) = outcome("{ print $.a }", "$", "[{\"a\": 1}, {\"b\": 2}, {\"a\": 3}]");
    assert_eq!(out, "1\n");
    assert_eq!(result, Err("unknown key a".to_string()));
}

#[test]
fn the_machine_asks_for_what_it_cannot_do() {
    let mut vm = Vm::new(false);
    let rules = compile("{ print $ + 1 }").unwrap();
    let selector = compile_selector("$").unwrap();
    let one = 1.0f64.to_bits();
    let two = 2.0f64.to_bits();
    let five = 5.0f64.to_bits();
    assert_eq!(vm.run(b"[\"5\"]", selector, rules), Action::Ask(Request::Parse("1".to_string())));
    assert_eq!(vm.resume(Reply::Number(one)), Action::Ask(Request::Parse("5".to_string())));
    assert_eq!(vm.resume(Reply::Number(five)), Action::Ask(Request::Calc(NumOp::Add, five, one)));
    assert_eq!(vm.resume(Reply::Number(two)), Action::Ask(Request::Format(two)));
    assert_eq!(vm.resume(Reply::Text("two".to_string())), Action::Ask(Request::Print("two\n".to_string())));
    assert!(vm.halted());
    assert!(vm.is_wf());
    assert_eq!(vm.resume(Reply::Printed), Action::Done);
    assert_eq!(vm.resume(Reply::Printed), Action::Done);
}

#[test]
fn a_number_element_is_read_by_the_host() {
    let mut vm = Vm::new(false);
    let rules = compile("{ print }").unwrap();
    let selector = compile_selector("$").unwrap();
    let nine = 9.0f64.to_bits();
    assert_eq!(vm.run(b"[1.50]", selector, rules), Action::Ask(Request::Parse("1.5".to_string())));
    assert_eq!(vm.resume(Reply::Number(nine)), Action::Ask(Request::Format(nine)));
    assert_eq!(vm.resume(Reply::Text("9".to_string())), Action::Ask(Request::Print("9\n".to_string())));
    assert_eq!(vm.resume(Reply::Printed), Action::Done);
}

#[test]
fn a_number_document_is_read_by_the_host() {
    let mut vm = Vm::new(false);
    let first = vm.run(b" 12 ", compile_selector("$").unwrap(), vec![]);
    assert_eq!(first, Action::Ask(Request::Parse("12".to_string())));
    assert_eq!(
        vm.resume(Reply::Number(12.0f64.to_bits())),
        Action::Failed(RuntimeError { msg: "JSON must be an object or an array, got number".to_string() })
    );
}

#[test]
fn text_that_is_no_number_counts_as_zero() {
    let mut vm = Vm::new(false);
    let first = vm.run(b"[\"abc\"]", compile_selector("$").unwrap(), compile("{ print $ * 1, $ > 5 }").unwrap());
    assert_eq!(first, Action::Ask(Request::Parse("1".to_string())));
    let one = 1.0f64.to_bits();
    assert_eq!(vm.resume(Reply::Number(one)), Action::Ask(Request::Parse("abc".to_string())));
    assert_eq!(vm.resume(Reply::NoNumber), Action::Ask(Request::Calc(NumOp::Multiply, 0, one)));
    assert_eq!(vm.resume(Reply::Number(0)), Action::Ask(Request::Parse("5".to_string())));
    assert_eq!(vm.resume(Reply::Number(5.0f64.to_bits())), Action::Ask(Request::Parse("abc".to_string())));
    assert_eq!(vm.resume(Reply::NoNumber), Action::Ask(Request::Format(0)));
    assert_eq!(vm.resume(Reply::Text("0".to_string())), Action::Ask(Request::Format(0)));
    assert_eq!(vm.resume(Reply::Text("0".to_string())), Action::Ask(Request::Print("0 0\n".to_string())));
    assert_eq!(vm.resume(Reply::Printed), Action::Done);
}

#[test]
fn no_number_answers_nothing_but_reading() {
    let wrong = Action::Failed(RuntimeError { msg: "unexpected reply".to_string() });
    let mut vm = Vm::new(false);
    let first = vm.run(b"[]", compile_selector("$").unwrap(), compile("BEGIN { print 1 + 2 }").unwrap());
    assert_eq!(first, Action::Ask(Request::Parse("1".to_string())));
    assert_eq!(vm.resume(Reply::NoNumber), Action::Ask(Request::Parse("2".to_string())));
    assert_eq!(vm.resume(Reply::Number(2.0f64.to_bits())), Action::Ask(Request::Calc(NumOp::Add, 0, 2.0f64.to_bits())));
    assert_eq!(vm.resume(Reply::NoNumber), wrong);
}

#[test]
fn a_reply_that_does_not_answer_ends_the_run() {
    let wrong = Action::Failed(RuntimeError { msg: "unexpected reply".to_string() });
    let start = || {
        let mut vm = Vm::new(false);
        let first = vm.run(b"[1]", compile_selector("$").unwrap(), compile("{ print }").unwrap());
        assert_eq!(first, Action::Ask(Request::Parse("1".to_string())));
        vm
    };
    assert_eq!(start().resume(Reply::Printed), wrong);
    assert_eq!(start().resume(Reply::Text("1".to_string())), wrong);
    let mut vm = start();
    assert_eq!(vm.resume(Reply::Number(0)), Action::Ask(Request::Format(0)));
    assert_eq!(vm.resume(Reply::Number(0)), wrong);
    assert_eq!(vm.resume(Reply::Text("0".to_string())), wrong);
    let mut vm = start();
    vm.resume(Reply::Number(0));
    assert_eq!(vm.resume(Reply::Text("0".to_string())), Action::Ask(Request::Print("0\n".to_string())));
    assert_eq!(vm.resume(Reply::Number(0)), wrong);
}

#[test]
fn variables_and_the_stack_are_kept_between_runs() {
    let mut vm = Vm::new(false);
    let first = vm.run(b"[1, 2]", compile_selector("$").unwrap(), compile("{ seen = seen + 1; 7 }").unwrap());
    assert_eq!(finish(&mut vm, first), (String::new(), Ok(())));
    let rules = vec![JqaRule {
        pattern: vec![],
        body: vec![OpCode::GetGlobal("seen".to_string()), OpCode::GetGlobal("NR".to_string()), OpCode::Print(4)],
        kind: JqaRuleKind::Begin,
    }];
    let second = vm.run(b"[]", compile_selector("$").unwrap(), rules);
    assert_eq!(finish(&mut vm, second), ("7 7 2 2\n".to_string(), Ok(())));
}

#[test]
fn json_values_become_values_by_their_kind() {
    let value = |text: &str| {
        let mut vm = Vm::new(false);
        let rules = vec![JqaRule { pattern: vec![], body: vec![OpCode::Print(0)], kind: JqaRuleKind::Begin }];
        match vm.run(text.as_bytes(), vec![OpCode::GetField(String::new())], rules) {
            Action::Ask(request) => request,
            other => panic!("{:?}", other),
        }
    };
    assert_eq!(value("\"a\\nb\""), Request::Print("a\nb\n".to_string()));
    assert_eq!(value("-2.50e1"), Request::Parse("-25.0".to_string()));
    assert_eq!(value("18446744073709551615"), Request::Parse("18446744073709551615".to_string()));
    assert_eq!(value("true"), Request::Format(0));
    assert_eq!(value("null"), Request::Format(0));
    assert_eq!(value("[ 1 , {\"a\" : \"b\"} ]"), Request::Print("[1,{\"a\":\"b\"}]\n".to_string()));
    assert_eq!(value("{\"b\": 1, \"a\": 2, \"b\": 3}"), Request::Print("{\"b\":3,\"a\":2}\n".to_string()));
}

#[test]
fn values_know_their_kind() {
    let values = [
        (Value::Str("s".to_string()), "string", true, 0u64),
        (Value::Str(String::new()), "string", false, 0),
        (Value::Num(1.5f64.to_bits()), "number", true, 1.5f64.to_bits()),
        (Value::Num(0), "number", false, 0),
        (Value::Num((-0.0f64).to_bits()), "number", false, (-0.0f64).to_bits()),
        (Value::Num(f64::NAN.to_bits()), "number", true, f64::NAN.to_bits()),
        (Value::Regex("r".to_string()), "regex", false, 0),
    ];
    for (v, name, truth, number) in values {
        assert_eq!(v.display_type(), name);
        assert_eq!(v.truthy(), truth);
        assert_eq!(v.number(), number);
        assert_eq!(v.duplicate(), v);
    }
    assert_eq!(Value::Str("s".to_string()).shown(), Some("s".to_string()));
    assert_eq!(Value::Regex("^a".to_string()).shown(), Some("/^a/".to_string()));
    assert_eq!(Value::Num(5).shown(), None);
    assert!(Value::Str("a".to_string()).compare(&Value::Str("a".to_string())));
    assert!(!Value::Str("a".to_string()).compare(&Value::Str("b".to_string())));
    assert!(Value::Num(0).compare(&Value::Num((-0.0f64).to_bits())));
    assert!(!Value::Num(f64::NAN.to_bits()).compare(&Value::Num(f64::NAN.to_bits())));
    assert!(!Value::Regex("a".to_string()).compare(&Value::Regex("a".to_string())));
    assert!(!Value::Str("1".to_string()).compare(&Value::Num(1.0f64.to_bits())));
}

#[test]
fn a_verdict_is_a_truth_value_or_an_error() {
    assert_eq!(verdict(Ok(true)), Ok(Value::Num(1.0f64.to_bits())));
    assert_eq!(verdict(Ok(false)), Ok(Value::Num(0)));
    assert_eq!(
        verdict(Err("bad".to_string())),
        Err(RuntimeError { msg: "invalid regex: bad".to_string() })
    );
}

#[test]
fn search_tells_whether_a_pattern_matches() {
    assert_eq!(search("Asia", "South Asia"), Ok(true));
    assert_eq!(search("^Asia", "South Asia"), Ok(false));
    assert_eq!(search("", ""), Ok(true));
    assert_eq!(search("a", "a"), Ok(true));
    assert_eq!(search("a", "b"), Ok(false));
    assert!(search("(", "(").is_err());
    assert!(search("\\", "x").is_err());
}

#[test]
fn documents_are_read_from_their_bytes() {
    let load = |text: &str| from_json(read(text.as_bytes()).unwrap());
    assert_eq!(load("\"hi\""), Loaded::Ready(Value::Str("hi".to_string())));
    assert_eq!(load("12.50"), Loaded::Number("12.5".to_string()));
    assert_eq!(load("7"), Loaded::Number("7".to_string()));
    assert_eq!(load("-7"), Loaded::Number("-7".to_string()));
    assert_eq!(load("null"), Loaded::Ready(Value::Num(0)));
    assert_eq!(load("true"), Loaded::Ready(Value::Num(0)));
    assert_eq!(load("false"), Loaded::Ready(Value::Num(0)));
    match load("[1, [2]]") {
        Loaded::Ready(Value::Array(j)) => assert_eq!(j, read(b"[1,[2]]").unwrap()),
        other => panic!("{:?}", other),
    }
    match load("{\"a\": {}}") {
        Loaded::Ready(Value::Object(j)) => {
            assert_eq!(Value::Object(j).shown(), Some("{\"a\":{}}".to_string()))
        }
        other => panic!("{:?}", other),
    }
    assert!(read(b"[1,").is_err());
    assert!(read(b"").is_err());
    assert!(read(&[0xff, 0xfe]).is_err());
    assert!(Shape::Array != Shape::Object);
}

#[test]
fn a_run_can_begin_on_a_document_that_was_read() {
    let mut vm = Vm::new(false);
    let first = vm.begin(read(b"[\"a\", \"b\"]"), compile_selector("$").unwrap(), compile("{ print NR, $ }").unwrap());
    assert_eq!(finish(&mut vm, first), ("1 a\n2 b\n".to_string(), Ok(())));
    let mut vm = Vm::new(false);
    let first = vm.begin(Err("no luck".to_string()), compile_selector("$").unwrap(), Vec::new());
    assert_eq!(first, Action::Failed(RuntimeError { msg: "error parsing JSON: no luck".to_string() }));
}
