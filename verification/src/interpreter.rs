//! The execution engine: it runs a token sequence directly, one statement at
//! a time, over a variable environment and an instruction pointer that is an
//! index into the sequence.

use vstd::prelude::*;
use vstd::string::StringExecFns;
use crate::decimal::{decimal_string, parse_index};
use crate::environment::Environment;
use crate::error::RunError;
use crate::semantics::{
    bool_of_text, condition_value, else_spec, first_of_kind, goto_spec, if_spec, is_first_of_kind,
    let_spec, print_spec, source_value, step_spec, wanted_number, Outcome,
};
use crate::text::same_text;
use crate::token::{token_views, Token, TokenType, TokenView};
use crate::value::{Number, NumberView, ValueView, VariableValue};

verus! {

/// A number as contracts see it, where there is one.
pub open spec fn number_view(number: Option<Number>) -> Option<NumberView> {
    match number {
        Some(n) => Some(n@),
        None => None,
    }
}

/// A line of output as contracts see it, where there is one.
pub open spec fn line_view(line: Option<String>) -> Option<Seq<char>> {
    match line {
        Some(s) => Some(s@),
        None => None,
    }
}

/// Reads `s` as a boolean.
pub fn parse_bool(s: &str) -> (r: Option<bool>)
    ensures
        r == bool_of_text(s@),
{
    if same_text(s, "true") {
        Some(true)
    } else if same_text(s, "false") {
        Some(false)
    } else {
        None
    }
}

/// The engine: a token sequence, which never changes, the variable
/// environment and the instruction pointer.
pub struct Interpreter {
    tokens: Vec<Token>,
    variables: Environment,
    index: usize,
}

impl Interpreter {
    /// The engine's state is sound: the environment is well formed, and one
    /// more than the number of tokens fits in a `usize`.
    pub closed spec fn wf(&self) -> bool {
        &&& self.variables.wf()
        &&& self.tokens.len() < usize::MAX
    }

    /// The token sequence that the engine runs.
    pub closed spec fn program(&self) -> Seq<TokenView> {
        token_views(self.tokens@)
    }

    /// The bindings from variable name to value.
    pub closed spec fn bindings(&self) -> Map<Seq<char>, ValueView> {
        self.variables@
    }

    /// The instruction pointer.
    pub closed spec fn pointer(&self) -> int {
        self.index as int
    }

    /// `after` is `before` after one dispatch whose result is `result`, where
    /// `expected` is what the dispatch is to do. A failed dispatch changes
    /// nothing.
    pub open spec fn stepped(
        before: &Interpreter,
        after: &Interpreter,
        result: Result<Option<String>, RunError>,
        expected: Result<Outcome, RunError>,
    ) -> bool {
        &&& after.wf()
        &&& after.program() == before.program()
        &&& match expected {
            Ok(outcome) => {
                &&& result matches Ok(line)
                &&& line_view(line) == outcome.line
                &&& after.bindings() == outcome.env
                &&& after.pointer() == outcome.ip
            },
            Err(e) => {
                &&& result == Err::<Option<String>, RunError>(e)
                &&& after.bindings() == before.bindings()
                &&& after.pointer() == before.pointer()
            },
        }
    }

    /// An engine at the start of `tokens`, with no variable bound.
    pub fn new(tokens: Vec<Token>) -> (engine: Interpreter)
        requires
            tokens.len() < usize::MAX,
        ensures
            engine.wf(),
            engine.program() == token_views(tokens@),
            engine.bindings() == Map::<Seq<char>, ValueView>::empty(),
            engine.pointer() == 0,
    {
        Interpreter { tokens, variables: Environment::new(), index: 0 }
    }

    /// The token sequence.
    pub fn tokens(&self) -> (tokens: &Vec<Token>)
        ensures
            token_views(tokens@) == self.program(),
    {
        &self.tokens
    }

    /// The variable environment.
    pub fn variables(&self) -> (env: &Environment)
        ensures
            env@ == self.bindings(),
            self.wf() ==> env.wf(),
    {
        &self.variables
    }

    /// The instruction pointer.
    pub fn index(&self) -> (ip: usize)
        ensures
            ip == self.pointer(),
    {
        self.index
    }

    /// Whether the pointer has reached the end of the sequence, so that the
    /// run is complete.
    pub fn finished(&self) -> (done: bool)
        ensures
            done == (self.pointer() == self.program().len()),
    {
        self.index == self.tokens.len()
    }

    /// The first position from `current` on that holds a token of kind
    /// `token_type`, found by a scan forward.
    pub fn find_index_of_token(&self, current: usize, token_type: TokenType) -> (found: Option<
        usize,
    >)
        ensures
            match found {
                Some(i) => first_of_kind(self.program(), current as int, token_type) == Some(
                    i as int,
                ),
                None => first_of_kind(self.program(), current as int, token_type) is None,
            },
    {
        let len = self.tokens.len();
        let mut i: usize = current;
        while i < len
            invariant
                len == self.tokens.len(),
                current <= i,
                forall|j: int|
                    current <= j < i && j < len ==> (#[trigger] self.program()[j]).kind
                        != token_type,
            decreases len - i,
        {
            if self.tokens[i].token_type == token_type {
                proof {
                    let program = self.program();
                    assert(is_first_of_kind(program, current as int, token_type, i as int));
                    let chosen = choose|k: int|
                        is_first_of_kind(program, current as int, token_type, k);
                    assert(is_first_of_kind(program, current as int, token_type, chosen));
                    if chosen < i {
                        assert(program[chosen].kind != token_type);
                    }
                }
                return Some(i);
            }
            i = i + 1;
        }
        proof {
            let program = self.program();
            assert forall|k: int| !is_first_of_kind(program, current as int, token_type, k) by {
                if is_first_of_kind(program, current as int, token_type, k) {
                    assert(program[k].kind != token_type);
                }
            }
        }
        None
    }

    /// The text of the number literal that the next dispatch assigns, if it
    /// assigns one. Whoever drives the engine reads that text as a number and
    /// hands the reading to [`Interpreter::step`].
    pub fn number_wanted(&self) -> (text: Option<&str>)
        ensures
            match text {
                Some(s) => wanted_number(self.program(), self.pointer()) == Some(s@),
                None => wanted_number(self.program(), self.pointer()) is None,
            },
    {
        let ip = self.index;
        let len = self.tokens.len();
        if ip < len && len - ip > 3 {
            if self.tokens[ip].token_type == TokenType::Let && self.tokens[ip + 1].token_type
                == TokenType::Identifier && self.tokens[ip + 2].token_type == TokenType::Assign
                && self.tokens[ip + 3].token_type == TokenType::NumberLiteral {
                return Some(self.tokens[ip + 3].literal.as_str());
            }
        }
        None
    }

    /// The value that the token at `at` gives to a `let`.
    fn read_source(&self, at: usize, number: Option<Number>) -> (value: Result<
        VariableValue,
        RunError,
    >)
        requires
            self.wf(),
            at < self.program().len(),
        ensures
            match source_value(self.program()[at as int], self.bindings(), number_view(number)) {
                Ok(v) => value matches Ok(held) && held@ == v,
                Err(e) => value == Err::<VariableValue, RunError>(e),
            },
    {
        let source = &self.tokens[at];
        match source.token_type {
            TokenType::StringLiteral => Ok(VariableValue::Text(source.literal.clone())),
            TokenType::NumberLiteral => match number {
                Some(n) => Ok(VariableValue::Number(n)),
                None => Err(RunError::NumericParse),
            },
            TokenType::BooleanLiteral => match parse_bool(source.literal.as_str()) {
                Some(b) => Ok(VariableValue::Boolean(b)),
                None => Err(RunError::NumericParse),
            },
            TokenType::Identifier => match self.variables.get(&source.literal) {
                Some(held) => Ok(held.duplicate()),
                None => Err(RunError::UndefinedVariable),
            },
            _ => Err(RunError::Syntax),
        }
    }

    /// The boolean that the token at `at` gives to an `if`.
    fn read_condition(&self, at: usize) -> (value: Result<bool, RunError>)
        requires
            self.wf(),
            at < self.program().len(),
        ensures
            value == condition_value(self.program()[at as int], self.bindings()),
    {
        let source = &self.tokens[at];
        match source.token_type {
            TokenType::ExpressionStart => Err(RunError::UnsupportedCondition),
            TokenType::Identifier => match self.variables.get(&source.literal) {
                Some(VariableValue::Boolean(b)) => Ok(*b),
                Some(_) => Err(RunError::TypeMismatch),
                None => Err(RunError::UndefinedVariable),
            },
            TokenType::BooleanLiteral => match parse_bool(source.literal.as_str()) {
                Some(b) => Ok(b),
                None => Err(RunError::NumericParse),
            },
            _ => Err(RunError::Syntax),
        }
    }

    /// Runs the `let` at the pointer.
    fn step_let(&mut self, number: Option<Number>) -> (result: Result<Option<String>, RunError>)
        requires
            old(self).wf(),
            0 <= old(self).pointer() < old(self).program().len(),
        ensures
            Self::stepped(
                old(self),
                final(self),
                result,
                let_spec(
                    old(self).program(),
                    old(self).bindings(),
                    old(self).pointer(),
                    number_view(number),
                ),
            ),
    {
        let ip = self.index;
        let len = self.tokens.len();
        if len - ip < 2 || self.tokens[ip + 1].token_type != TokenType::Identifier {
            return Err(RunError::Syntax);
        }
        if len - ip < 3 || self.tokens[ip + 2].token_type != TokenType::Assign {
            return Err(RunError::Syntax);
        }
        if len - ip < 4 {
            return Err(RunError::Syntax);
        }
        match self.read_source(ip + 3, number) {
            Ok(value) => {
                let name = self.tokens[ip + 1].literal.clone();
                self.variables.insert(name, value);
                self.index = ip + 4;
                Ok(None)
            },
            Err(e) => Err(e),
        }
    }

    /// Runs the `print` at the pointer.
    fn step_print(&mut self) -> (result: Result<Option<String>, RunError>)
        requires
            old(self).wf(),
            0 <= old(self).pointer() < old(self).program().len(),
        ensures
            Self::stepped(
                old(self),
                final(self),
                result,
                print_spec(old(self).program(), old(self).bindings(), old(self).pointer()),
            ),
    {
        let ip = self.index;
        if self.tokens.len() - ip < 2 {
            return Err(RunError::Syntax);
        }
        let operand = &self.tokens[ip + 1];
        let shown = match operand.token_type {
            TokenType::Identifier => match self.variables.get(&operand.literal) {
                Some(held) => held.render(),
                None => {
                    return Err(RunError::UndefinedVariable);
                },
            },
            TokenType::StringLiteral | TokenType::BooleanLiteral | TokenType::NumberLiteral => {
                operand.literal.clone()
            },
            _ => {
                return Err(RunError::Syntax);
            },
        };
        let line = String::from_str("Print call : ").concat(shown.as_str());
        self.index = ip + 2;
        Ok(Some(line))
    }

    /// Runs the `goto` at the pointer.
    fn step_goto(&mut self) -> (result: Result<Option<String>, RunError>)
        requires
            old(self).wf(),
            0 <= old(self).pointer() < old(self).program().len(),
        ensures
            Self::stepped(
                old(self),
                final(self),
                result,
                goto_spec(old(self).program(), old(self).bindings(), old(self).pointer()),
            ),
    {
        let ip = self.index;
        if self.tokens.len() - ip < 2 {
            return Err(RunError::Syntax);
        }
        let operand = &self.tokens[ip + 1];
        match operand.token_type {
            TokenType::Identifier => match self.variables.get(&operand.literal) {
                Some(VariableValue::Number(n)) => {
                    let target = n.index;
                    self.index = target;
                    Ok(None)
                },
                Some(_) => Err(RunError::TypeMismatch),
                None => Err(RunError::UndefinedVariable),
            },
            TokenType::NumberLiteral => match parse_index(operand.literal.as_str()) {
                Some(target) => {
                    let line = String::from_str("GOTO - went to line ").concat(
                        decimal_string(target).as_str(),
                    );
                    self.index = target;
                    Ok(Some(line))
                },
                None => Err(RunError::NumericParse),
            },
            _ => Err(RunError::Syntax),
        }
    }

    /// Runs the `if` at the pointer.
    fn step_if(&mut self) -> (result: Result<Option<String>, RunError>)
        requires
            old(self).wf(),
            0 <= old(self).pointer() < old(self).program().len(),
        ensures
            Self::stepped(
                old(self),
                final(self),
                result,
                if_spec(old(self).program(), old(self).bindings(), old(self).pointer()),
            ),
    {
        let ip = self.index;
        let len = self.tokens.len();
        if len - ip < 2 {
            return Err(RunError::Syntax);
        }
        match self.read_condition(ip + 1) {
            Ok(true) => {
                self.index = ip + 3;
                Ok(None)
            },
            Ok(false) => match self.find_index_of_token(ip + 1, TokenType::ScopeJump) {
                Some(close) => {
                    if len - close > 1 && self.tokens[close + 1].token_type
                        == TokenType::ConditionalElse {
                        self.index = close + 3;
                    } else {
                        self.index = close + 1;
                    }
                    Ok(None)
                },
                None => Err(RunError::UnterminatedBlock),
            },
            Err(e) => Err(e),
        }
    }

    /// Runs the `else` at the pointer.
    fn step_else(&mut self) -> (result: Result<Option<String>, RunError>)
        requires
            old(self).wf(),
            0 <= old(self).pointer() < old(self).program().len(),
        ensures
            Self::stepped(
                old(self),
                final(self),
                result,
                else_spec(old(self).program(), old(self).bindings(), old(self).pointer()),
            ),
    {
        let ip = self.index;
        if self.tokens.len() - ip < 2 || self.tokens[ip + 1].token_type != TokenType::ScopeDrop {
            return Err(RunError::Syntax);
        }
        match self.find_index_of_token(ip + 1, TokenType::ScopeJump) {
            Some(close) => {
                self.index = close + 1;
                Ok(None)
            },
            None => Err(RunError::UnterminatedBlock),
        }
    }

    /// Runs the statement at the instruction pointer: one dispatch on the
    /// kind of the token there. On success the result is the line of output
    /// that the statement produced, if it produced one. On failure the engine
    /// is left as it was. `number` is the reading as a number of the text that
    /// [`Interpreter::number_wanted`] gave, `None` if the text has no such
    /// reading or none was wanted.
    pub fn step(&mut self, number: Option<Number>) -> (result: Result<Option<String>, RunError>)
        requires
            old(self).wf(),
        ensures
            Self::stepped(
                old(self),
                final(self),
                result,
                step_spec(
                    old(self).program(),
                    old(self).bindings(),
                    old(self).pointer(),
                    number_view(number),
                ),
            ),
    {
        let ip = self.index;
        let len = self.tokens.len();
        if ip == len {
            return Ok(None);
        }
        if ip > len {
            return Err(RunError::PointerOutOfRange);
        }
        match self.tokens[ip].token_type {
            TokenType::Let => self.step_let(number),
            TokenType::PrintCall => self.step_print(),
            TokenType::Goto => self.step_goto(),
            TokenType::Conditional => self.step_if(),
            TokenType::ConditionalElse => self.step_else(),
            TokenType::ScopeJump => {
                self.index = ip + 1;
                Ok(None)
            },
            _ => Err(RunError::Syntax),
        }
    }
}

} // verus!
