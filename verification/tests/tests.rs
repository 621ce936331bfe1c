use jqawk::compiler::Compiler;
use jqawk::lexer::Lexer;
use jqawk::semantics::NumOp;
use jqawk::vm::{Action, Reply, Request, Vm};

const PEOPLE: &str = "[
  { \"age\": 10, \"name\": \"tiny tony\" },
  { \"age\": 56, \"name\": \"big bob\" },
  { \"age\": 72, \"name\": \"old olive\" }
]";

fn answer(request: Request, out: &mut String) -> Reply {
    match request {
        Request::Parse(text) => match text.parse::<f64>() {
            Ok(v) => Reply::Number(v.to_bits()),
            Err(_) => Reply::NoNumber,
        },
        Request::Calc(op, l, r) => {
            let (l, r) = (f64::from_bits(l), f64::from_bits(r));
            let v = match op {
                NumOp::Add => l + r,
                NumOp::Subtract => l - r,
                NumOp::Multiply => l * r,
                NumOp::Divide => l / r,
            };
            Reply::Number(v.to_bits())
        }
        Request::Format(n) => Reply::Text(format!("{}", f64::from_bits(n))),
        Request::Print(text) => {
            out.push_str(&text);
            Reply::Printed
        }
    }
}

fn run_with_root(program: &str, root: &str, input: &str) -> Result<String, String> {
    let rules = match Compiler::new(Lexer::new(program)).compile_rules() {
        Ok(rules) => rules,
        Err(e) => return Err(format!("error on line {}: {}", e.line, e.msg)),
    };
    let selector = match Compiler::new(Lexer::new(root)).compile_expression() {
        Ok(ops) => ops,
        Err(e) => return Err(format!("error on line {}: {}", e.line, e.msg)),
    };
    let mut vm = Vm::new(false);
    let mut out = String::new();
    let mut action = vm.run(input.as_bytes(), selector, rules);
    loop {
        match action {
            Action::Ask(request) => {
                let reply = answer(request, &mut out);
                action = vm.resume(reply);
            }
            Action::Done => return Ok(out),
            Action::Failed(e) => return Err(format!("{}runtime error: {}", out, e.msg)),
        }
    }
}

fn run(program: &str, input: &str) -> String {
    match run_with_root(program, "$", input) {
        Ok(out) => out,
        Err(e) => panic!("jqawk failed: {}", e),
    }
}

#[test]
fn begin_and_end() {
    let program = "\
END { print \"end\" }
BEGIN { print \"begin\" }";
    let output = run(program, PEOPLE);

    assert_eq!(output, "begin\nend\n".to_string());
}

#[test]
fn members() {
    let program = "{ print $.age; }";
    let output = run(program, PEOPLE);

    let expected = "\
10
56
72
";
    assert_eq!(output, expected.to_string());
}

#[test]
fn root_param() {
    let program = "{ print $; }";
    let output = run_with_root(program, "$[0]", PEOPLE).unwrap();

    let expected = "\
10
tiny tony
";
    assert_eq!(output, expected.to_string());
}

#[test]
fn stdin_input() {
    let program = "{ print $ }";
    let output = run(program, "[1, 2, 3]");
    let expected = "\
1
2
3
";
    assert_eq!(output, expected.to_string());
}

#[test]
fn variables() {
    let program = "\
BEGIN { total = 0 }
{ total = total + $ }
END { print total }";
    let input = "[1, 2, 3, 4, 5, 6, 7, 8, 9, 10]";
    let output = run(program, input);
    assert_eq!(output, "55\n");
}

#[test]
fn operators() {
    let program = "\
BEGIN {
  print 2 + 4;
  print 2 - 1;
  print 2 * 4;
  print 6 / 3;
}
";
    let output = run(program, "[]");
    assert_eq!(output, "6\n1\n8\n2\n");
}

#[test]
fn print_without_arguments() {
    assert_eq!(run("{ print }", "[1, 2, 3]"), "1\n2\n3\n");
}

#[test]
fn print_two_members() {
    assert_eq!(run("{ print $[0], $[2] }", "[[1, 2, 3], [10, 20, 30]]"), "1 3\n10 30\n");
}

#[test]
fn print_the_count_and_the_element() {
    assert_eq!(run("{ print NR, $ }", "[2, 4, 6, 8]"), "1 2\n2 4\n3 6\n4 8\n");
}

#[test]
fn print_the_count_at_the_end() {
    assert_eq!(run("END { print NR }", "[1, 2, 3, 4]"), "4\n");
}

#[test]
fn pattern_without_body() {
    assert_eq!(
        run("$[1] > 100", "[[10, 20], [100, 200], [1000, 2000]]"),
        "[100,200]\n[1000,2000]\n"
    );
}

#[test]
fn pattern_on_a_member() {
    assert_eq!(
        run(
            "$.continent == \"Asia\" { print $.country }",
            "[{ \"continent\": \"Asia\", \"country\": \"Japan\" },
    { \"continent\": \"Europe\", \"country\": \"Sweden\" }]"
        ),
        "Japan\n"
    );
}

#[test]
fn strings_compare_as_strings() {
    assert_eq!(run("$ > \"S\"", "[\"Clive\", \"Tony\"]"), "Tony\n");
}

#[test]
fn pattern_on_two_members() {
    assert_eq!(run("$[0] == $[1]", "[[1, 2], [3, 3], [4, 5]]"), "[3,3]\n");
}

#[test]
fn pattern_with_match() {
    assert_eq!(run("$ ~ /Asia/", "[\"Asia\", \"Europe\"]"), "Asia\n");
}

#[test]
fn match_on_a_member() {
    assert_eq!(
        run(
            "$.continent ~ /Europe/ { print $.country }",
            "[{ \"continent\": \"Asia\", \"country\": \"Japan\" },
    { \"continent\": \"Europe\", \"country\": \"Sweden\" }]"
        ),
        "Sweden\n"
    );
}

#[test]
fn no_match_on_a_member() {
    assert_eq!(
        run(
            "$.continent !~ /Europe/ { print $.country }",
            "[{ \"continent\": \"Asia\", \"country\": \"Japan\" },
    { \"continent\": \"Europe\", \"country\": \"Sweden\" }]"
        ),
        "Japan\n"
    );
}

#[test]
fn match_with_an_escaped_dollar() {
    assert_eq!(run("$ ~ /\\$/", "[\"£gbp\", \"$usd\"]"), "$usd\n");
}

#[test]
fn match_with_an_escaped_backslash() {
    assert_eq!(run("$ ~ /\\\\/", "[\"C:\\\\\"]"), "C:\\\n");
}

#[test]
fn match_with_anchors() {
    assert_eq!(run("$ ~ /^.$/", "[\"a\", \"abc\"]"), "a\n");
}

#[test]
fn pattern_with_and() {
    assert_eq!(
        run(
            "$.name == \"alligator\" && $.age > 30 { print $.id }",
            "[{ \"id\": 1, \"name\": \"alligator\", \"age\": 25 },
    { \"id\": 2, \"name\": \"alligator\", \"age\": 35 },
    { \"id\": 3, \"name\": \"clive\", \"age\": 35 }]"
        ),
        "2\n"
    );
}

#[test]
fn pattern_with_or() {
    assert_eq!(
        run(
            "$.name == \"alligator\" || $.age > 30 { print $.id }",
            "[{ \"id\": 1, \"name\": \"not alligator\", \"age\": 25 },
    { \"id\": 2, \"name\": \"alligator\", \"age\": 35 },
    { \"id\": 3, \"name\": \"clive\", \"age\": 35 }]"
        ),
        "2\n3\n"
    );
}
