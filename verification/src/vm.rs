//! The virtual machine: the instructions, the values they work on, and the
//! machine that runs compiled rules over a JSON document.
use vstd::prelude::*;
use vstd::hash_map::StringHashMap;
use crate::compiler::{JqaRule, JqaRuleKind};
use crate::json::{
    Json, JsonView, Shape, classify, copy, element, json_model, member, read, render, values,
};
use crate::number::{EXACT, ONE, ZERO, above, index, of_whole, zero};
use crate::pattern::search;
use crate::semantics;
use crate::semantics::{
    ActionView, After, NumOp, Part, Phase, ReplyView, RequestView, VmView, advance, action_of, ask,
    binary, code, code_end, count, counter, decide, deliver, enter, enter_body, enter_end,
    exec_op, fail, fetch, finish, flag, get_member, halted, joined, kind_name, lemma_step_nearer, line, load, next, next_rule, number_slot, numeric, print,
    produce, produce_json, rule_step, same, select, settle, shown, step, truthy,
    value_of, variable, with_stack,
};
use crate::text::{after, same_text};

verus! {

/// A constant written in a program.
#[derive(Debug, PartialEq)]
pub enum Literal {
    /// A string.
    Str(String),
    /// The text of a regular expression.
    Regex(String),
    /// A number, by its digits.
    Num(String),
}

/// A constant as a mathematical value.
pub enum LiteralView {
    Str(Seq<char>),
    Regex(Seq<char>),
    Num(Seq<char>),
}

impl DeepView for Literal {
    type V = LiteralView;

    open spec fn deep_view(&self) -> LiteralView {
        match self {
            Literal::Str(s) => LiteralView::Str(s@),
            Literal::Regex(s) => LiteralView::Regex(s@),
            Literal::Num(s) => LiteralView::Num(s@),
        }
    }
}

impl Literal {
    /// A copy of the constant.
    pub fn duplicate(&self) -> (r: Literal)
        ensures
            r.deep_view() == self.deep_view(),
    {
        match self {
            Literal::Str(s) => Literal::Str(s.clone()),
            Literal::Regex(s) => Literal::Regex(s.clone()),
            Literal::Num(s) => Literal::Num(s.clone()),
        }
    }
}

/// The instructions of the machine.
#[derive(Debug, PartialEq)]
pub enum OpCode {
    GetField(String),
    PushImmediate(Literal),
    GetMember,
    GetGlobal(String),
    SetGlobal(String),
    Equal,
    And,
    Or,
    Add,
    Subtract,
    Multiply,
    Divide,
    Greater,
    Match,
    Negate,
    Print(usize),
}

/// An instruction as a mathematical value.
pub enum OpView {
    GetField(Seq<char>),
    PushImmediate(LiteralView),
    GetMember,
    GetGlobal(Seq<char>),
    SetGlobal(Seq<char>),
    Equal,
    And,
    Or,
    Add,
    Subtract,
    Multiply,
    Divide,
    Greater,
    Match,
    Negate,
    Print(nat),
}

impl DeepView for OpCode {
    type V = OpView;

    open spec fn deep_view(&self) -> OpView {
        match self {
            OpCode::GetField(s) => OpView::GetField(s@),
            OpCode::PushImmediate(l) => OpView::PushImmediate(l.deep_view()),
            OpCode::GetMember => OpView::GetMember,
            OpCode::GetGlobal(s) => OpView::GetGlobal(s@),
            OpCode::SetGlobal(s) => OpView::SetGlobal(s@),
            OpCode::Equal => OpView::Equal,
            OpCode::And => OpView::And,
            OpCode::Or => OpView::Or,
            OpCode::Add => OpView::Add,
            OpCode::Subtract => OpView::Subtract,
            OpCode::Multiply => OpView::Multiply,
            OpCode::Divide => OpView::Divide,
            OpCode::Greater => OpView::Greater,
            OpCode::Match => OpView::Match,
            OpCode::Negate => OpView::Negate,
            OpCode::Print(n) => OpView::Print(*n as nat),
        }
    }
}

impl OpCode {
    /// A copy of the instruction.
    pub fn duplicate(&self) -> (r: OpCode)
        ensures
            r.deep_view() == self.deep_view(),
    {
        match self {
            OpCode::GetField(s) => OpCode::GetField(s.clone()),
            OpCode::PushImmediate(l) => OpCode::PushImmediate(l.duplicate()),
            OpCode::GetMember => OpCode::GetMember,
            OpCode::GetGlobal(s) => OpCode::GetGlobal(s.clone()),
            OpCode::SetGlobal(s) => OpCode::SetGlobal(s.clone()),
            OpCode::Equal => OpCode::Equal,
            OpCode::And => OpCode::And,
            OpCode::Or => OpCode::Or,
            OpCode::Add => OpCode::Add,
            OpCode::Subtract => OpCode::Subtract,
            OpCode::Multiply => OpCode::Multiply,
            OpCode::Divide => OpCode::Divide,
            OpCode::Greater => OpCode::Greater,
            OpCode::Match => OpCode::Match,
            OpCode::Negate => OpCode::Negate,
            OpCode::Print(n) => OpCode::Print(*n),
        }
    }
}

/// A value at run time. A number is held by the bits of its IEEE 754
/// double precision form; arrays and objects stay as the document has them.
#[derive(Debug, PartialEq)]
pub enum Value {
    Str(String),
    Regex(String),
    Num(u64),
    Object(Json),
    Array(Json),
}

/// A run-time value as a mathematical value.
pub enum ValueView {
    Str(Seq<char>),
    Regex(Seq<char>),
    Num(u64),
    Object(JsonView),
    Array(JsonView),
}

impl View for Value {
    type V = ValueView;

    open spec fn view(&self) -> ValueView {
        match self {
            Value::Str(s) => ValueView::Str(s@),
            Value::Regex(s) => ValueView::Regex(s@),
            Value::Num(n) => ValueView::Num(*n),
            Value::Object(j) => ValueView::Object(json_model(*j)),
            Value::Array(j) => ValueView::Array(json_model(*j)),
        }
    }
}

impl DeepView for Value {
    type V = ValueView;

    open spec fn deep_view(&self) -> ValueView {
        self@
    }
}

/// Why a run was given up.
#[derive(Debug, PartialEq)]
pub struct RuntimeError {
    pub msg: String,
}

impl View for RuntimeError {
    type V = Seq<char>;

    open spec fn view(&self) -> Seq<char> {
        self.msg@
    }
}

impl Value {
    /// A copy of the value.
    pub fn duplicate(&self) -> (r: Value)
        ensures
            r@ == self@,
    {
        match self {
            Value::Str(s) => Value::Str(s.clone()),
            Value::Regex(s) => Value::Regex(s.clone()),
            Value::Num(n) => Value::Num(*n),
            Value::Object(j) => Value::Object(copy(j)),
            Value::Array(j) => Value::Array(copy(j)),
        }
    }

    /// Whether the value counts as true.
    pub fn truthy(&self) -> (r: bool)
        ensures
            r == truthy(self@),
    {
        match self {
            Value::Str(s) => !s.as_str().is_empty(),
            Value::Num(n) => !zero(*n),
            _ => false,
        }
    }

    /// The name of the value's type.
    pub fn display_type(&self) -> (r: &'static str)
        ensures
            r@ == kind_name(self@),
    {
        match self {
            Value::Str(_) => "string",
            Value::Num(_) => "number",
            Value::Array(_) => "array",
            Value::Object(_) => "object",
            Value::Regex(_) => "regex",
        }
    }

    /// The number that the value counts as where it is no string.
    pub fn number(&self) -> (r: u64)
        ensures
            r == numeric(self@),
    {
        match self {
            Value::Num(n) => *n,
            _ => ZERO,
        }
    }

    /// Whether the two values are equal: strings by their characters,
    /// numbers by their values, and nothing else.
    pub fn compare(&self, other: &Value) -> (r: bool)
        ensures
            r == same(self@, other@),
    {
        match (self, other) {
            (Value::Str(a), Value::Str(b)) => *a == *b,
            (Value::Num(a), Value::Num(b)) => crate::number::same(*a, *b),
            _ => false,
        }
    }

    /// The text that the value is printed as; none for a number, which the
    /// host writes.
    pub fn shown(&self) -> (r: Option<String>)
        ensures
            match r {
                Some(t) => shown(self@) == Some(t@),
                None => shown(self@) is None,
            },
    {
        match self {
            Value::Str(s) => Some(s.clone()),
            Value::Regex(p) => {
                let mut t = String::from_str("/");
                t.append(p.as_str());
                t.append("/");
                Some(t)
            },
            Value::Num(_) => None,
            Value::Array(j) => Some(render(j)),
            Value::Object(j) => Some(render(j)),
        }
    }
}

/// What turning a JSON value into a run-time value gives: the value, or the
/// text of a number that has to be parsed first.
#[derive(Debug, PartialEq)]
pub enum Loaded {
    Ready(Value),
    Number(String),
}

/// Turns a JSON value into a run-time value.
pub fn from_json(j: Json) -> (r: Loaded)
    ensures
        match r {
            Loaded::Ready(v) => value_of(json_model(j)) == Some(v@),
            Loaded::Number(text) => json_model(j) == JsonView::Number(text@),
        },
{
    match classify(&j) {
        Shape::Array => Loaded::Ready(Value::Array(j)),
        Shape::Object => Loaded::Ready(Value::Object(j)),
        Shape::Text(s) => Loaded::Ready(Value::Str(s)),
        Shape::Number(text) => Loaded::Number(text),
        Shape::Null => Loaded::Ready(Value::Num(ZERO)),
        Shape::Bool(_) => Loaded::Ready(Value::Num(ZERO)),
    }
}

/// Outside work that the machine asks the host for.
#[derive(Debug, PartialEq)]
pub enum Request {
    /// Read the text as a number, and answer with its bits, or say that
    /// the text is no number.
    Parse(String),
    /// Compute `left op right`, and answer with the bits of the result.
    Calc(NumOp, u64, u64),
    /// Write the number in decimal, and answer with the text.
    Format(u64),
    /// Write the text to the output.
    Print(String),
}

impl View for Request {
    type V = RequestView;

    open spec fn view(&self) -> RequestView {
        match self {
            Request::Parse(s) => RequestView::Parse(s@),
            Request::Calc(op, l, r) => RequestView::Calc(*op, *l, *r),
            Request::Format(n) => RequestView::Format(*n),
            Request::Print(s) => RequestView::Print(s@),
        }
    }
}

impl Request {
    /// A copy of the request.
    pub fn duplicate(&self) -> (r: Request)
        ensures
            r@ == self@,
    {
        match self {
            Request::Parse(s) => Request::Parse(s.clone()),
            Request::Calc(op, l, r) => Request::Calc(*op, *l, *r),
            Request::Format(n) => Request::Format(*n),
            Request::Print(s) => Request::Print(s.clone()),
        }
    }
}

/// What a call of the machine ends with: a request to the host, the end of
/// the run, or its failure.
#[derive(Debug, PartialEq)]
pub enum Action {
    Ask(Request),
    Done,
    Failed(RuntimeError),
}

impl View for Action {
    type V = ActionView;

    open spec fn view(&self) -> ActionView {
        match self {
            Action::Ask(r) => ActionView::Ask(r@),
            Action::Done => ActionView::Done,
            Action::Failed(e) => ActionView::Failed(e@),
        }
    }
}

/// What the host hands back to the machine.
#[derive(Debug, PartialEq)]
pub enum Reply {
    /// The bits of a number: the answer to `Parse` and `Calc`.
    Number(u64),
    /// The text is no number: the other answer to `Parse`. The machine takes
    /// 0 for it.
    NoNumber,
    /// A text: the answer to `Format`.
    Text(String),
    /// The line was written: the answer to `Print`.
    Printed,
}

impl View for Reply {
    type V = ReplyView;

    open spec fn view(&self) -> ReplyView {
        match self {
            Reply::Number(n) => ReplyView::Number(*n),
            Reply::NoNumber => ReplyView::NoNumber,
            Reply::Text(s) => ReplyView::Text(s@),
            Reply::Printed => ReplyView::Printed,
        }
    }
}

/// The variables as mathematical values.
pub open spec fn variables_view(m: Map<Seq<char>, Value>) -> Map<Seq<char>, ValueView> {
    Map::new(|k: Seq<char>| m.contains_key(k), |k: Seq<char>| m[k]@)
}

/// The trees of a list of JSON values.
pub open spec fn items_view(items: Seq<Json>) -> Seq<JsonView> {
    Seq::new(items.len(), |i: int| json_model(items[i]))
}

/// The machine.
pub struct Vm {
    root: Value,
    variables: StringHashMap<Value>,
    stack: Vec<Value>,
    dbg: bool,
    selector: Vec<OpCode>,
    rules: Vec<JqaRule>,
    source: Value,
    items: Vec<Json>,
    phase: Phase,
    item: usize,
    rule: usize,
    part: Part,
    pc: usize,
    request: Option<Request>,
    after: After,
    failure: Option<RuntimeError>,
}

impl View for Vm {
    type V = VmView;

    closed spec fn view(&self) -> VmView {
        VmView {
            root: self.root@,
            variables: variables_view(self.variables@),
            stack: self.stack.deep_view(),
            selector: self.selector.deep_view(),
            rules: self.rules.deep_view(),
            source: self.source@,
            items: items_view(self.items@),
            phase: self.phase,
            item: self.item as nat,
            rule: self.rule as nat,
            part: self.part,
            pc: self.pc as nat,
            request: match self.request {
                Some(r) => Some(r@),
                None => None,
            },
            after: self.after,
            failure: match self.failure {
                Some(e) => Some(e@),
                None => None,
            },
            tracing: self.dbg,
        }
    }
}

/// The machine before its first run: at rest, with an empty stack and `NR`
/// set to 0.
pub open spec fn initial(tracing: bool) -> VmView {
    VmView {
        root: ValueView::Num(ZERO),
        variables: Map::empty().insert(counter(), ValueView::Num(ZERO)),
        stack: Seq::empty(),
        selector: Seq::empty(),
        rules: Seq::empty(),
        source: ValueView::Num(ZERO),
        items: Seq::empty(),
        phase: Phase::Done,
        item: 0,
        rule: 0,
        part: Part::Pattern,
        pc: 0,
        request: None,
        after: After::Idle,
        failure: None,
        tracing,
    }
}

/// `prefix` followed by `rest`.
fn message(prefix: &str, rest: &str) -> (r: String)
    ensures
        r@ == prefix@ + rest@,
{
    let mut m = String::from_str(prefix);
    m.append(rest);
    m
}

/// What a test against a regular expression puts on the stack: the truth
/// value of the match, or the error for a pattern that was refused.
pub fn verdict(outcome: Result<bool, String>) -> (r: Result<Value, RuntimeError>)
    ensures
        match r {
            Ok(v) => outcome is Ok && v@ == flag(outcome->Ok_0),
            Err(e) => outcome is Err && e@ == "invalid regex: "@ + outcome->Err_0@,
        },
{
    match outcome {
        Ok(found) => Ok(truth(found)),
        Err(e) => Err(RuntimeError { msg: message("invalid regex: ", e.as_str()) }),
    }
}

/// The number that stands for a truth value.
fn truth(b: bool) -> (r: Value)
    ensures
        r@ == flag(b),
{
    if b {
        Value::Num(ONE)
    } else {
        Value::Num(ZERO)
    }
}

impl Vm {
    /// Whether the machine can take the step that it has planned: where
    /// the reply it waits for moves it to the next instruction, there is
    /// a next instruction count.
    pub closed spec fn wf(&self) -> bool {
        &&& self.request is None ==> self.after is Idle
        &&& (self.after is Push || self.after is Result || self.after == After::Printed(false))
            ==> self.pc < usize::MAX
    }

    /// Whether the machine can take the step that it has planned.
    pub fn is_wf(&self) -> (r: bool)
        ensures
            r == self.wf(),
    {
        let (idle, moves) = match self.after {
            After::Idle => (true, false),
            After::Push => (false, true),
            After::Result => (false, true),
            After::Printed(leave) => (false, !leave),
            _ => (false, false),
        };
        (self.request.is_some() || idle) && (!moves || self.pc < usize::MAX)
    }

    /// A machine at rest. The flag says whether the host wants to trace
    /// the run; the machine only keeps it.
    pub fn new(dbg: bool) -> (vm: Vm)
        ensures
            vm.wf(),
            vm@ == initial(dbg),
    {
        let mut variables: StringHashMap<Value> = StringHashMap::new();
        variables.insert(String::from_str("NR"), Value::Num(ZERO));
        let vm = Vm {
            root: Value::Num(ZERO),
            variables,
            stack: Vec::new(),
            dbg,
            selector: Vec::new(),
            rules: Vec::new(),
            source: Value::Num(ZERO),
            items: Vec::new(),
            phase: Phase::Done,
            item: 0,
            rule: 0,
            part: Part::Pattern,
            pc: 0,
            request: None,
            after: After::Idle,
            failure: None,
        };
        assert(vm@.variables =~= initial(dbg).variables);
        assert(vm@.stack =~= initial(dbg).stack);
        assert(vm@.selector =~= initial(dbg).selector);
        assert(vm@.rules =~= initial(dbg).rules);
        assert(vm@.items =~= initial(dbg).items);
        vm
    }

    /// Whether the host asked to trace the run.
    pub fn dbg(&self) -> (r: bool)
        ensures
            r == self@.tracing,
    {
        self.dbg
    }

    /// Whether the machine has stopped.
    pub fn halted(&self) -> (r: bool)
        ensures
            r == halted(self@),
    {
        self.phase == Phase::Done || self.request.is_some()
    }

    /// Gives the run up with a message.
    fn halt(&mut self, msg: String)
        ensures
            final(self).wf(),
            final(self)@ == fail(old(self)@, msg@),
    {
        self.after = After::Idle;
        self.phase = Phase::Done;
        self.request = None;
        self.failure = Some(RuntimeError { msg });
    }

    /// Stops for the host with a request.
    fn ask(&mut self, request: Request, after: After)
        requires
            after is Push || after is Result || after == After::Printed(false) ==> old(self).pc
                < usize::MAX,
        ensures
            final(self).wf(),
            final(self)@ == ask(old(self)@, request@, after),
    {
        self.after = after;
        self.request = Some(request);
    }

    /// Takes back the request.
    fn settle(&mut self)
        ensures
            final(self).wf(),
            final(self).pc == old(self).pc,
            final(self)@ == settle(old(self)@),
    {
        self.after = After::Idle;
        self.request = None;
    }

    /// Pushes a value.
    fn push(&mut self, v: Value)
        ensures
            final(self)@ == with_stack(old(self)@, old(self)@.stack.push(v@)),
            final(self).after == old(self).after,
            final(self).pc == old(self).pc,
    {
        self.stack.push(v);
        assert(self.stack.deep_view() =~= old(self).stack.deep_view().push(v@));
    }

    /// Pops a value.
    fn pop(&mut self) -> (v: Value)
        requires
            old(self)@.stack.len() > 0,
        ensures
            final(self)@ == with_stack(old(self)@, old(self)@.stack.drop_last()),
            final(self).after == old(self).after,
            final(self).pc == old(self).pc,
            v@ == old(self)@.stack.last(),
    {
        let v = self.stack.pop().unwrap();
        assert(self.stack.deep_view() =~= old(self).stack.deep_view().drop_last());
        v
    }

    /// Cuts the stack down to a height.
    fn cut(&mut self, len: usize)
        requires
            len <= old(self)@.stack.len(),
        ensures
            final(self)@ == with_stack(old(self)@, old(self)@.stack.take(len as int)),
            final(self).after == old(self).after,
            final(self).pc == old(self).pc,
    {
        self.stack.truncate(len);
        assert(self.stack.deep_view() =~= old(self).stack.deep_view().take(len as int));
    }

    /// Puts a value in a stack slot.
    fn put(&mut self, slot: usize, v: Value)
        requires
            slot < old(self)@.stack.len(),
        ensures
            final(self)@ == with_stack(old(self)@, old(self)@.stack.update(slot as int, v@)),
            final(self).after == old(self).after,
            final(self).pc == old(self).pc,
    {
        self.stack.set(slot, v);
        assert(self.stack.deep_view() =~= old(self).stack.deep_view().update(slot as int, v@));
    }

    /// Goes on to the next instruction.
    fn forward(&mut self)
        requires
            old(self).pc < usize::MAX,
            old(self).after is Idle,
        ensures
            final(self).wf(),
            final(self)@ == next(old(self)@),
    {
        self.pc = self.pc + 1;
    }

    /// Pushes a value and goes on to the next instruction.
    fn produce(&mut self, v: Value)
        requires
            old(self).pc < usize::MAX,
            old(self).after is Idle,
        ensures
            final(self).wf(),
            final(self)@ == produce(old(self)@, v@),
    {
        self.push(v);
        self.forward();
    }

    /// Puts a JSON value on the stack, or asks the host to read it where it
    /// is a number.
    fn produce_json(&mut self, j: Json)
        requires
            old(self).pc < usize::MAX,
            old(self).after is Idle,
        ensures
            final(self).wf(),
            final(self)@ == produce_json(old(self)@, json_model(j)),
    {
        match from_json(j) {
            Loaded::Ready(v) => {
                self.produce(v);
            },
            Loaded::Number(text) => {
                self.ask(Request::Parse(text), After::Push);
            },
        }
    }

    /// Sets a variable.
    fn store(&mut self, name: String, v: Value)
        ensures
            final(self)@ == (VmView {
                variables: old(self)@.variables.insert(name@, v@),
                ..old(self)@
            }),
            final(self).after == old(self).after,
            final(self).pc == old(self).pc,
    {
        self.variables.insert(name, v);
        assert(variables_view(self.variables@) =~= variables_view(old(self).variables@).insert(
            name@,
            v@,
        ));
    }

    /// A copy of the value of a variable: 0 where it was never set.
    fn variable(&self, name: &str) -> (v: Value)
        ensures
            v@ == variable(self@, name@),
    {
        match self.variables.get(name) {
            Some(v) => v.duplicate(),
            None => Value::Num(ZERO),
        }
    }

    /// The text of the string in a stack slot, if a string is there.
    fn text_at(&self, slot: usize) -> (r: Option<String>)
        requires
            slot < self@.stack.len(),
        ensures
            match r {
                Some(t) => self@.stack[slot as int] == ValueView::Str(t@),
                None => !(self@.stack[slot as int] is Str),
            },
    {
        match &self.stack[slot] {
            Value::Str(s) => Some(s.clone()),
            _ => None,
        }
    }

    /// The number in a stack slot, where no string is there.
    fn number_at(&self, slot: usize) -> (r: u64)
        requires
            slot < self@.stack.len(),
        ensures
            r == numeric(self@.stack[slot as int]),
            self@.stack[slot as int] is Num ==> self@.stack[slot as int] == ValueView::Num(r),
    {
        self.stack[slot].number()
    }

    /// Gives the run up for a pop from an empty stack.
    fn underflow(&mut self)
        ensures
            final(self).wf(),
            final(self)@ == fail(
                with_stack(old(self)@, Seq::empty()),
                "attempted to pop an empty stack"@,
            ),
    {
        self.cut(0);
        assert(self@.stack =~= Seq::empty());
        self.halt(String::from_str("attempted to pop an empty stack"));
    }

    /// Member access: the key is on top of the stack, the target below it.
    fn get_member(&mut self)
        requires
            old(self).wf(),
            !halted(old(self)@),
            old(self).pc < usize::MAX,
        ensures
            final(self).wf(),
            final(self)@ == get_member(old(self)@),
    {
        let len = self.stack.len();
        if len < 2 {
            self.underflow();
            return ;
        }
        let number_key: Option<u64> = match (&self.stack[len - 2], &self.stack[len - 1]) {
            (Value::Object(_), Value::Num(n)) => Some(*n),
            _ => None,
        };
        if let Some(n) = number_key {
            self.ask(Request::Format(n), After::Render(len - 1));
            return ;
        }
        let key = self.pop();
        let target = self.pop();
        assert(self@.stack =~= old(self)@.stack.take(len - 2));
        match target {
            Value::Array(a) => match key {
                Value::Num(n) => match element(&a, index(n)) {
                    Some(j) => {
                        self.produce_json(j);
                    },
                    None => {
                        self.produce(Value::Num(ZERO));
                    },
                },
                _ => {
                    self.halt(message("cannot index an array with a ", key.display_type()));
                },
            },
            Value::Object(o) => match key {
                Value::Str(s) => match member(&o, s.as_str()) {
                    Some(j) => {
                        self.produce_json(j);
                    },
                    None => {
                        self.halt(message("unknown key ", s.as_str()));
                    },
                },
                _ => {
                    self.halt(message("cannot access member on object with ", key.display_type()));
                },
            },
            _ => {
                self.halt(
                    message(
                        "can only access members on objects or arrays, found ",
                        target.display_type(),
                    ),
                );
            },
        }
    }

    /// An instruction with two operands.
    fn binary(&mut self, op: &OpCode)
        requires
            old(self).wf(),
            !halted(old(self)@),
            old(self).pc < usize::MAX,
            op is Equal || op is And || op is Or || op is Match || op is Greater || op is Add
                || op is Subtract || op is Multiply || op is Divide,
        ensures
            final(self).wf(),
            final(self)@ == binary(old(self)@, op.deep_view()),
    {
        let len = self.stack.len();
        if len < 2 {
            self.underflow();
            return ;
        }
        match op {
            OpCode::Equal | OpCode::And | OpCode::Or | OpCode::Match => {
                let r = self.pop();
                let l = self.pop();
                assert(self@.stack =~= old(self)@.stack.take(len - 2));
                match op {
                    OpCode::Equal => {
                        self.produce(truth(l.compare(&r)));
                    },
                    OpCode::And => {
                        let b = l.truthy() && r.truthy();
                        self.produce(truth(b));
                    },
                    OpCode::Or => {
                        let b = l.truthy() || r.truthy();
                        self.produce(truth(b));
                    },
                    _ => match (l, r) {
                        (Value::Str(s), Value::Regex(p)) => match verdict(
                            search(p.as_str(), s.as_str()),
                        ) {
                            Ok(v) => {
                                self.produce(v);
                            },
                            Err(e) => {
                                self.halt(e.msg);
                            },
                        },
                        _ => {
                            self.halt(String::from_str("can only match a string against a regex"));
                        },
                    },
                }
            },
            _ => {
                let right = self.text_at(len - 1);
                let left = self.text_at(len - 2);
                let comparing = match op {
                    OpCode::Greater => true,
                    _ => false,
                };
                match (left, right) {
                    (Some(l), Some(r)) if comparing => {
                        self.cut(len - 2);
                        self.produce(truth(after(l.as_str(), r.as_str())));
                    },
                    (_, Some(r)) => {
                        self.ask(Request::Parse(r), After::Coerce(len - 1));
                    },
                    (Some(l), None) => {
                        self.ask(Request::Parse(l), After::Coerce(len - 2));
                    },
                    (None, None) => {
                        let l = self.number_at(len - 2);
                        let r = self.number_at(len - 1);
                        match op {
                            OpCode::Greater => {
                                self.cut(len - 2);
                                self.produce(truth(above(l, r)));
                            },
                            OpCode::Add => {
                                self.ask(Request::Calc(NumOp::Add, l, r), After::Result);
                            },
                            OpCode::Subtract => {
                                self.ask(Request::Calc(NumOp::Subtract, l, r), After::Result);
                            },
                            OpCode::Multiply => {
                                self.ask(Request::Calc(NumOp::Multiply, l, r), After::Result);
                            },
                            _ => {
                                self.ask(Request::Calc(NumOp::Divide, l, r), After::Result);
                            },
                        }
                    },
                }
            },
        }
    }

    /// The first slot at or after `from` that holds a number.
    fn number_slot(&self, from: usize) -> (r: Option<usize>)
        requires
            from <= self@.stack.len(),
        ensures
            match r {
                Some(slot) => slot < self@.stack.len() && self@.stack[slot as int] is Num
                    && number_slot(self@.stack, from as nat) == Some(slot as nat),
                None => number_slot(self@.stack, from as nat) is None,
            },
    {
        let mut i: usize = from;
        while i < self.stack.len()
            invariant
                from <= i <= self@.stack.len(),
                number_slot(self@.stack, i as nat) == number_slot(self@.stack, from as nat),
            decreases self@.stack.len() - i,
        {
            match &self.stack[i] {
                Value::Num(_) => {
                    return Some(i);
                },
                _ => {},
            }
            i += 1;
        }
        None
    }

    /// The values from slot `from` on as they are printed.
    fn joined(&self, from: usize) -> (r: String)
        requires
            from <= self@.stack.len(),
        ensures
            r@ == joined(self@.stack, from as nat, self@.stack.len()),
    {
        let mut out = String::new();
        let mut i: usize = from;
        while i < self.stack.len()
            invariant
                from <= i <= self@.stack.len(),
                out@ == joined(self@.stack, from as nat, i as nat),
            decreases self@.stack.len() - i,
        {
            if i > from {
                out.append(" ");
            }
            match self.stack[i].shown() {
                Some(t) => {
                    out.append(t.as_str());
                },
                None => {
                    assert(out@ + Seq::<char>::empty() =~= out@);
                },
            }
            i += 1;
            assert(out@ =~= joined(self@.stack, from as nat, i as nat));
        }
        out
    }

    /// Printing: the root element, or the topmost `count` values.
    fn print(&mut self, count: usize)
        requires
            old(self).wf(),
            !halted(old(self)@),
            old(self).pc < usize::MAX,
        ensures
            final(self).wf(),
            final(self)@ == print(old(self)@, count as nat),
    {
        if count == 0 {
            match self.root.shown() {
                Some(t) => {
                    let mut text = t;
                    text.append("\n");
                    self.ask(Request::Print(text), After::Printed(true));
                },
                None => {
                    let n = self.root.number();
                    self.ask(Request::Format(n), After::Show);
                },
            }
            return ;
        }
        let len = self.stack.len();
        if len < count {
            self.underflow();
            return ;
        }
        let base = len - count;
        match self.number_slot(base) {
            Some(slot) => {
                let n = self.number_at(slot);
                self.ask(Request::Format(n), After::Render(slot));
            },
            None => {
                let mut text = self.joined(base);
                text.append("\n");
                self.cut(base);
                self.ask(Request::Print(text), After::Printed(false));
            },
        }
    }

    /// One instruction.
    fn exec_op(&mut self, op: OpCode)
        requires
            old(self).wf(),
            !halted(old(self)@),
            old(self).pc < usize::MAX,
        ensures
            final(self).wf(),
            final(self)@ == exec_op(old(self)@, op.deep_view()),
    {
        match op {
            OpCode::GetField(name) => {
                if name.as_str().is_empty() || same_text(name.as_str(), "root") {
                    let v = self.root.duplicate();
                    self.produce(v);
                } else {
                    self.halt(message("unknown field: ", name.as_str()));
                }
            },
            OpCode::PushImmediate(literal) => match literal {
                Literal::Str(s) => {
                    self.produce(Value::Str(s));
                },
                Literal::Regex(p) => {
                    self.produce(Value::Regex(p));
                },
                Literal::Num(digits) => {
                    self.ask(Request::Parse(digits), After::Push);
                },
            },
            OpCode::GetMember => {
                self.get_member();
            },
            OpCode::GetGlobal(name) => {
                let v = self.variable(name.as_str());
                self.produce(v);
            },
            OpCode::SetGlobal(name) => {
                if self.stack.len() < 1 {
                    self.halt(String::from_str("attempted to pop an empty stack"));
                } else {
                    let v = self.pop();
                    self.store(name, v);
                    self.forward();
                }
            },
            OpCode::Negate => {
                if self.stack.len() < 1 {
                    self.halt(String::from_str("attempted to pop an empty stack"));
                } else {
                    let v = self.pop();
                    match v {
                        Value::Num(n) => {
                            self.produce(truth(zero(n)));
                        },
                        _ => {
                            self.halt(String::from_str("can only negate a number"));
                        },
                    }
                }
            },
            OpCode::Print(count) => {
                self.print(count);
            },
            other => {
                self.binary(&other);
            },
        }
    }

    /// Starts on the rules of a phase.
    fn enter(&mut self, phase: Phase)
        requires
            old(self).wf(),
            old(self).after is Idle,
        ensures
            final(self).wf(),
            final(self).after is Idle,
            final(self)@ == enter(old(self)@, phase),
    {
        self.phase = phase;
        self.rule = 0;
        self.part = Part::Pattern;
        self.pc = 0;
    }

    /// Starts on the next rule.
    fn next_rule(&mut self)
        requires
            old(self).wf(),
            old(self).after is Idle,
            old(self).rule < usize::MAX,
        ensures
            final(self).wf(),
            final(self)@ == next_rule(old(self)@),
    {
        self.rule = self.rule + 1;
        self.part = Part::Pattern;
        self.pc = 0;
    }

    /// Starts on the current rule's body.
    fn enter_body(&mut self)
        requires
            old(self).wf(),
            old(self).after is Idle,
        ensures
            final(self).wf(),
            final(self)@ == enter_body(old(self)@),
    {
        self.part = Part::Body;
        self.pc = 0;
    }

    /// Takes the selector's result from the stack.
    fn select(&mut self)
        requires
            old(self).wf(),
            !halted(old(self)@),
        ensures
            final(self).wf(),
            final(self)@ == select(old(self)@),
    {
        if self.stack.len() < 1 {
            self.halt(String::from_str("expected a value on the stack after the selector"));
        } else {
            let v = self.pop();
            self.root = v.duplicate();
            self.source = v;
            self.enter(Phase::Begin);
        }
    }

    /// Takes a pattern's result from the stack and acts on it.
    fn decide(&mut self)
        requires
            old(self).wf(),
            !halted(old(self)@),
            old(self).rule < usize::MAX,
        ensures
            final(self).wf(),
            final(self)@ == decide(old(self)@),
    {
        if self.stack.len() < 1 {
            self.halt(String::from_str("expected one value on the stack after pattern"));
        } else {
            let v = self.pop();
            if v.truthy() {
                self.enter_body();
            } else {
                self.next_rule();
            }
        }
    }

    /// Starts on the rules marked `END`.
    fn enter_end(&mut self)
        requires
            old(self).wf(),
            old(self).after is Idle,
        ensures
            final(self).wf(),
            final(self)@ == enter_end(old(self)@),
    {
        self.root = self.source.duplicate();
        self.enter(Phase::End);
    }

    /// Ends the rules of a phase.
    fn finish(&mut self)
        requires
            old(self).wf(),
            !halted(old(self)@),
        ensures
            final(self).wf(),
            final(self)@ == finish(old(self)@),
    {
        match self.phase {
            Phase::Begin => {
                let items = match &self.source {
                    Value::Array(j) => values(j),
                    Value::Object(j) => values(j),
                    _ => None,
                };
                match items {
                    Some(items) => {
                        assert(items_view(items@) =~= semantics::items_of(self@.source)->0);
                        self.items = items;
                        self.item = 0;
                        self.phase = Phase::Fetch;
                    },
                    None => {
                        let msg = message(
                            "JSON must be an object or an array, got ",
                            self.source.display_type(),
                        );
                        self.halt(msg);
                    },
                }
            },
            Phase::Match => {
                if self.item < self.items.len() {
                    self.item = self.item + 1;
                    self.phase = Phase::Fetch;
                } else {
                    self.enter_end();
                }
            },
            _ => {
                self.phase = Phase::Done;
            },
        }
    }

    /// One move within the rules of a phase.
    fn rule_step(&mut self)
        requires
            old(self).wf(),
            !halted(old(self)@),
        ensures
            final(self).wf(),
            final(self)@ == rule_step(old(self)@),
    {
        if self.rule >= self.rules.len() {
            self.finish();
            return ;
        }
        let kind = match self.phase {
            Phase::Begin => Some(JqaRuleKind::Begin),
            Phase::Match => Some(JqaRuleKind::Match),
            Phase::End => Some(JqaRuleKind::End),
            _ => None,
        };
        let wanted = match kind {
            Some(k) => self.rules[self.rule].kind == k,
            None => false,
        };
        if !wanted {
            self.next_rule();
            return ;
        }
        match self.part {
            Part::Pattern => {
                let len = self.rules[self.rule].pattern.len();
                if len == 0 {
                    self.enter_body();
                } else if self.pc < len {
                    let op = self.rules[self.rule].pattern[self.pc].duplicate();
                    self.exec_op(op);
                } else {
                    self.decide();
                }
            },
            Part::Body => {
                if self.pc < self.rules[self.rule].body.len() {
                    let op = self.rules[self.rule].body[self.pc].duplicate();
                    self.exec_op(op);
                } else {
                    self.next_rule();
                }
            },
        }
    }

    /// Takes the next element.
    fn fetch(&mut self)
        requires
            old(self).wf(),
            !halted(old(self)@),
        ensures
            final(self).wf(),
            final(self)@ == fetch(old(self)@),
    {
        if self.item >= self.items.len() {
            self.enter_end();
        } else {
            let j = copy(&self.items[self.item]);
            match from_json(j) {
                Loaded::Ready(v) => {
                    self.root = v;
                    self.phase = Phase::Count;
                },
                Loaded::Number(text) => {
                    self.ask(Request::Parse(text), After::Root);
                },
            }
        }
    }

    /// Counts the element that was taken.
    fn count(&mut self)
        requires
            old(self).wf(),
            !halted(old(self)@),
        ensures
            final(self).wf(),
            final(self)@ == count(old(self)@),
    {
        match self.variable("NR") {
            Value::Str(s) => {
                self.ask(Request::Parse(s), After::Recount);
            },
            v => {
                let taken = self.item as u64;
                let untouched = match &v {
                    Value::Num(n) => taken < EXACT && *n == of_whole(taken),
                    _ => false,
                };
                if untouched {
                    self.store(String::from_str("NR"), Value::Num(of_whole(taken + 1)));
                    self.enter(Phase::Match);
                } else {
                    self.ask(Request::Calc(NumOp::Add, v.number(), ONE), After::Tally);
                }
            },
        }
    }

    /// One move of a machine that waits for nothing.
    fn step(&mut self)
        requires
            old(self).wf(),
            !halted(old(self)@),
        ensures
            final(self).wf(),
            final(self)@ == step(old(self)@),
    {
        match self.phase {
            Phase::Selector => {
                if self.pc < self.selector.len() {
                    let op = self.selector[self.pc].duplicate();
                    self.exec_op(op);
                } else {
                    self.select();
                }
            },
            Phase::Begin | Phase::Match | Phase::End => {
                self.rule_step();
            },
            Phase::Fetch => {
                self.fetch();
            },
            Phase::Count => {
                self.count();
            },
            Phase::Done => {},
        }
    }

    /// The instruction count at which the running code is left.
    fn code_end(&self) -> (r: usize)
        ensures
            r == code_end(self@),
    {
        match self.phase {
            Phase::Selector => self.selector.len(),
            Phase::Begin | Phase::Match | Phase::End => {
                if self.rule < self.rules.len() {
                    match self.part {
                        Part::Pattern => self.rules[self.rule].pattern.len(),
                        Part::Body => self.rules[self.rule].body.len(),
                    }
                } else {
                    self.pc
                }
            },
            _ => self.pc,
        }
    }

    /// Takes the host's reply.
    fn deliver(&mut self, reply: Reply)
        requires
            old(self).wf(),
        ensures
            final(self).wf(),
            final(self)@ == deliver(old(self)@, reply@),
    {
        if self.phase == Phase::Done {
            return ;
        }
        let after = self.after;
        let reads = match after {
            After::Push => true,
            After::Coerce(_) => true,
            After::Root => true,
            After::Recount => true,
            _ => false,
        };
        let reply = match reply {
            Reply::NoNumber => if reads {
                Reply::Number(ZERO)
            } else {
                Reply::NoNumber
            },
            other => other,
        };
        match (after, reply) {
            (After::Push, Reply::Number(n)) => {
                self.settle();
                self.produce(Value::Num(n));
            },
            (After::Coerce(slot), Reply::Number(n)) if slot < self.stack.len() => {
                self.settle();
                self.put(slot, Value::Num(n));
            },
            (After::Root, Reply::Number(n)) => {
                self.settle();
                self.root = Value::Num(n);
                if self.phase == Phase::Fetch {
                    self.phase = Phase::Count;
                }
            },
            (After::Recount, Reply::Number(n)) => {
                self.settle();
                self.store(String::from_str("NR"), Value::Num(n));
            },
            (After::Tally, Reply::Number(n)) => {
                self.settle();
                self.store(String::from_str("NR"), Value::Num(n));
                self.enter(Phase::Match);
            },
            (After::Result, Reply::Number(n)) if self.stack.len() >= 2 => {
                self.settle();
                let len = self.stack.len();
                self.cut(len - 2);
                self.produce(Value::Num(n));
            },
            (After::Render(slot), Reply::Text(t)) if slot < self.stack.len() => {
                self.settle();
                self.put(slot, Value::Str(t));
            },
            (After::Show, Reply::Text(t)) => {
                let mut text = t;
                text.append("\n");
                self.ask(Request::Print(text), After::Printed(true));
            },
            (After::Printed(leave), Reply::Printed) => {
                if leave {
                    let end = self.code_end();
                    self.settle();
                    self.pc = end;
                } else {
                    self.settle();
                    self.forward();
                }
            },
            _ => {
                self.halt(String::from_str("unexpected reply"));
            },
        }
    }

    /// What the call ends with.
    fn action(&self) -> (action: Action)
        ensures
            action@ == action_of(self@),
    {
        if self.phase == Phase::Done {
            match &self.failure {
                Some(e) => Action::Failed(RuntimeError { msg: e.msg.clone() }),
                None => Action::Done,
            }
        } else {
            match &self.request {
                Some(r) => Action::Ask(r.duplicate()),
                None => Action::Done,
            }
        }
    }

    /// Runs on until the machine has stopped.
    fn advance(&mut self) -> (action: Action)
        requires
            old(self).wf(),
        ensures
            final(self).wf(),
            final(self)@ == advance(old(self)@),
            action@ == action_of(final(self)@),
    {
        if !self.halted() {
            loop
                invariant_except_break
                    !halted(self@),
                invariant
                    self.wf(),
                    advance(self@) == advance(old(self)@),
                ensures
                    halted(self@),
                decreases
                        semantics::phase_rank(self@.phase),
                        semantics::items_left(self@),
                        semantics::stage_rank(self@.phase),
                        semantics::rules_left(self@),
                        semantics::part_rank(self@.part),
                        semantics::code_left(self@),
            {
                proof {
                    lemma_step_nearer(self@);
                }
                self.step();
                if self.halted() {
                    break ;
                }
            }
        }
        self.action()
    }

    /// Starts a run on what parsing the document gave: the document becomes
    /// the root element, and the selector, the rules marked `BEGIN`, the
    /// pattern rules on each element of what the selector gave, and the
    /// rules marked `END` run as far as that goes without the host. The
    /// variables and the stack are kept from an earlier run.
    pub fn begin(
        &mut self,
        document: Result<Json, String>,
        selector: Vec<OpCode>,
        rules: Vec<JqaRule>,
    ) -> (action: Action)
        ensures
            final(self).wf(),
            final(self)@ == advance(
                load(
                    old(self)@,
                    match document {
                        Ok(j) => Ok(json_model(j)),
                        Err(e) => Err(e@),
                    },
                    selector.deep_view(),
                    rules.deep_view(),
                ),
            ),
            action@ == action_of(final(self)@),
    {
        self.selector = selector;
        self.rules = rules;
        self.source = Value::Num(ZERO);
        self.items = Vec::new();
        self.phase = Phase::Selector;
        self.item = 0;
        self.rule = 0;
        self.part = Part::Pattern;
        self.pc = 0;
        self.request = None;
        self.after = After::Idle;
        self.failure = None;
        assert(self@.items =~= Seq::empty());
        match document {
            Err(e) => {
                self.halt(message("error parsing JSON: ", e.as_str()));
            },
            Ok(document) => match from_json(document) {
                Loaded::Ready(v) => {
                    self.root = v;
                },
                Loaded::Number(text) => {
                    self.ask(Request::Parse(text), After::Root);
                },
            },
        }
        self.advance()
    }

    /// Starts a run on the bytes of a JSON document: parses them and
    /// begins as [`Vm::begin`] says. A document that does not parse fails
    /// the run.
    pub fn run(&mut self, input: &[u8], selector: Vec<OpCode>, rules: Vec<JqaRule>) -> (action:
        Action)
        ensures
            final(self).wf(),
            final(self)@ == advance(
                load(
                    old(self)@,
                    crate::json::json_parse(input@),
                    selector.deep_view(),
                    rules.deep_view(),
                ),
            ),
            action@ == action_of(final(self)@),
    {
        self.begin(read(input), selector, rules)
    }

    /// Goes on with a run after the host has done what the machine asked
    /// for. A reply that does not answer the request ends the run.
    pub fn resume(&mut self, reply: Reply) -> (action: Action)
        requires
            old(self).wf(),
        ensures
            final(self).wf(),
            final(self)@ == advance(deliver(old(self)@, reply@)),
            action@ == action_of(final(self)@),
    {
        self.deliver(reply);
        self.advance()
    }
}

} // verus!
