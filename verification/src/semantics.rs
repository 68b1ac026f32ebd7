//! What the engine does, statement by statement: the meaning of a token
//! sequence as a function from the state before a dispatch to the state after
//! it, and what follows from it.

use vstd::prelude::*;
use crate::decimal::{decimal_text, index_of_text};
use crate::error::RunError;
use crate::token::{TokenType, TokenView};
use crate::value::{rendered, NumberView, ValueView};

verus! {

/// What one statement leaves behind: the environment, the instruction
/// pointer, and the line of output that it produced, if it produced one.
pub struct Outcome {
    pub env: Map<Seq<char>, ValueView>,
    pub ip: int,
    pub line: Option<Seq<char>>,
}

/// The kind of the token at `i`, if there is a token at `i`.
pub open spec fn kind_at(program: Seq<TokenView>, i: int) -> Option<TokenType> {
    if 0 <= i < program.len() {
        Some(program[i].kind)
    } else {
        None
    }
}

/// `i` is the first position from `from` on that holds a token of kind `kind`.
pub open spec fn is_first_of_kind(
    program: Seq<TokenView>,
    from: int,
    kind: TokenType,
    i: int,
) -> bool {
    &&& 0 <= from <= i < program.len()
    &&& program[i].kind == kind
    &&& forall|j: int| from <= j < i ==> (#[trigger] program[j]).kind != kind
}

/// The first position from `from` on that holds a token of kind `kind`, if
/// there is one.
pub open spec fn first_of_kind(program: Seq<TokenView>, from: int, kind: TokenType) -> Option<
    int,
> {
    if exists|i: int| is_first_of_kind(program, from, kind, i) {
        Some(choose|i: int| is_first_of_kind(program, from, kind, i))
    } else {
        None
    }
}

/// The boolean that the text `s` writes: `true`, `false`, or none.
pub open spec fn bool_of_text(s: Seq<char>) -> Option<bool> {
    if s == "true"@ {
        Some(true)
    } else if s == "false"@ {
        Some(false)
    } else {
        None
    }
}

/// The line that a `print` of `text` produces.
pub open spec fn print_line(text: Seq<char>) -> Seq<char> {
    "Print call : "@ + text
}

/// The line that a `goto` to the literal index `target` produces.
pub open spec fn jump_line(target: nat) -> Seq<char> {
    "GOTO - went to line "@ + decimal_text(target)
}

/// The value that the token `source` gives to a `let`: a literal's own
/// value, or a copy of what the variable it names holds. `number` is the
/// reading of the token's text as a number, `None` if it has none; it counts
/// only where `source` is a number literal.
pub open spec fn source_value(
    source: TokenView,
    env: Map<Seq<char>, ValueView>,
    number: Option<NumberView>,
) -> Result<ValueView, RunError> {
    match source.kind {
        TokenType::StringLiteral => Ok(ValueView::Text(source.text)),
        TokenType::NumberLiteral => match number {
            Some(n) => Ok(ValueView::Number(n)),
            None => Err(RunError::NumericParse),
        },
        TokenType::BooleanLiteral => match bool_of_text(source.text) {
            Some(b) => Ok(ValueView::Boolean(b)),
            None => Err(RunError::NumericParse),
        },
        TokenType::Identifier => if env.contains_key(source.text) {
            Ok(env[source.text])
        } else {
            Err(RunError::UndefinedVariable)
        },
        _ => Err(RunError::Syntax),
    }
}

/// The boolean that the token `source` gives to an `if`.
pub open spec fn condition_value(source: TokenView, env: Map<Seq<char>, ValueView>) -> Result<
    bool,
    RunError,
> {
    match source.kind {
        TokenType::ExpressionStart => Err(RunError::UnsupportedCondition),
        TokenType::Identifier => if env.contains_key(source.text) {
            match env[source.text] {
                ValueView::Boolean(b) => Ok(b),
                _ => Err(RunError::TypeMismatch),
            }
        } else {
            Err(RunError::UndefinedVariable)
        },
        TokenType::BooleanLiteral => match bool_of_text(source.text) {
            Some(b) => Ok(b),
            None => Err(RunError::NumericParse),
        },
        _ => Err(RunError::Syntax),
    }
}

/// `let <identifier> = <source>` at `ip`: binds the name to the source's
/// value, in place of any earlier binding, and moves on by four tokens.
pub open spec fn let_spec(
    program: Seq<TokenView>,
    env: Map<Seq<char>, ValueView>,
    ip: int,
    number: Option<NumberView>,
) -> Result<Outcome, RunError> {
    if kind_at(program, ip + 1) != Some(TokenType::Identifier) {
        Err(RunError::Syntax)
    } else if kind_at(program, ip + 2) != Some(TokenType::Assign) {
        Err(RunError::Syntax)
    } else if ip + 3 >= program.len() {
        Err(RunError::Syntax)
    } else {
        match source_value(program[ip + 3], env, number) {
            Ok(v) => Ok(Outcome { env: env.insert(program[ip + 1].text, v), ip: ip + 4, line: None }),
            Err(e) => Err(e),
        }
    }
}

/// `print <identifier or literal>` at `ip`: one line of output, and on by
/// two tokens.
pub open spec fn print_spec(program: Seq<TokenView>, env: Map<Seq<char>, ValueView>, ip: int) -> Result<
    Outcome,
    RunError,
> {
    if ip + 1 >= program.len() {
        Err(RunError::Syntax)
    } else {
        let operand = program[ip + 1];
        match operand.kind {
            TokenType::Identifier => if env.contains_key(operand.text) {
                Ok(Outcome { env, ip: ip + 2, line: Some(print_line(rendered(env[operand.text]))) })
            } else {
                Err(RunError::UndefinedVariable)
            },
            TokenType::StringLiteral | TokenType::BooleanLiteral | TokenType::NumberLiteral => Ok(
                Outcome { env, ip: ip + 2, line: Some(print_line(operand.text)) },
            ),
            _ => Err(RunError::Syntax),
        }
    }
}

/// `goto <identifier or number literal>` at `ip`: the instruction pointer
/// becomes the target, whatever it is; nothing checks it against the length
/// of the sequence. The literal form also reports the target in a line of
/// output.
pub open spec fn goto_spec(program: Seq<TokenView>, env: Map<Seq<char>, ValueView>, ip: int) -> Result<
    Outcome,
    RunError,
> {
    if ip + 1 >= program.len() {
        Err(RunError::Syntax)
    } else {
        let operand = program[ip + 1];
        match operand.kind {
            TokenType::Identifier => if env.contains_key(operand.text) {
                match env[operand.text] {
                    ValueView::Number(n) => Ok(Outcome { env, ip: n.index as int, line: None }),
                    _ => Err(RunError::TypeMismatch),
                }
            } else {
                Err(RunError::UndefinedVariable)
            },
            TokenType::NumberLiteral => match index_of_text(operand.text) {
                Some(target) => Ok(
                    Outcome { env, ip: target as int, line: Some(jump_line(target as nat)) },
                ),
                None => Err(RunError::NumericParse),
            },
            _ => Err(RunError::Syntax),
        }
    }
}

/// Where a false `if` at `ip` goes on: just past the nearest block-close
/// after the condition and, if an `else` stands there, past the `else` and its
/// block-open too.
pub open spec fn skip_branch(program: Seq<TokenView>, ip: int) -> Result<int, RunError> {
    match first_of_kind(program, ip + 1, TokenType::ScopeJump) {
        Some(close) => if kind_at(program, close + 1) == Some(TokenType::ConditionalElse) {
            Ok(close + 3)
        } else {
            Ok(close + 1)
        },
        None => Err(RunError::UnterminatedBlock),
    }
}

/// `if <condition>` at `ip`: on a true condition the pointer moves past the
/// header and the token after it, which is not looked at; on a false one it
/// moves as [`skip_branch`] says.
pub open spec fn if_spec(program: Seq<TokenView>, env: Map<Seq<char>, ValueView>, ip: int) -> Result<
    Outcome,
    RunError,
> {
    if ip + 1 >= program.len() {
        Err(RunError::Syntax)
    } else {
        match condition_value(program[ip + 1], env) {
            Ok(true) => Ok(Outcome { env, ip: ip + 3, line: None }),
            Ok(false) => match skip_branch(program, ip) {
                Ok(next) => Ok(Outcome { env, ip: next, line: None }),
                Err(e) => Err(e),
            },
            Err(e) => Err(e),
        }
    }
}

/// `else {` met at `ip` by falling out of the branch before it: the pointer
/// moves just past the nearest block-close, and the else body is not run.
pub open spec fn else_spec(program: Seq<TokenView>, env: Map<Seq<char>, ValueView>, ip: int) -> Result<
    Outcome,
    RunError,
> {
    if kind_at(program, ip + 1) != Some(TokenType::ScopeDrop) {
        Err(RunError::Syntax)
    } else {
        match first_of_kind(program, ip + 1, TokenType::ScopeJump) {
            Some(close) => Ok(Outcome { env, ip: close + 1, line: None }),
            None => Err(RunError::UnterminatedBlock),
        }
    }
}

/// One dispatch of the engine on the token at `ip`. At the end of the
/// sequence nothing is left to do and nothing changes; beyond it the engine
/// fails. `number` is the reading as a number of the literal that a `let` at
/// `ip` assigns, and counts nowhere else.
pub open spec fn step_spec(
    program: Seq<TokenView>,
    env: Map<Seq<char>, ValueView>,
    ip: int,
    number: Option<NumberView>,
) -> Result<Outcome, RunError> {
    if ip == program.len() {
        Ok(Outcome { env, ip, line: None })
    } else if ip < 0 || ip > program.len() {
        Err(RunError::PointerOutOfRange)
    } else {
        match program[ip].kind {
            TokenType::Let => let_spec(program, env, ip, number),
            TokenType::PrintCall => print_spec(program, env, ip),
            TokenType::Goto => goto_spec(program, env, ip),
            TokenType::Conditional => if_spec(program, env, ip),
            TokenType::ConditionalElse => else_spec(program, env, ip),
            TokenType::ScopeJump => Ok(Outcome { env, ip: ip + 1, line: None }),
            _ => Err(RunError::Syntax),
        }
    }
}

/// The text of the number literal that the `let` at `ip` assigns, if a
/// well-formed `let` with a number literal stands at `ip`.
pub open spec fn wanted_number(program: Seq<TokenView>, ip: int) -> Option<Seq<char>> {
    if kind_at(program, ip) == Some(TokenType::Let) && kind_at(program, ip + 1) == Some(
        TokenType::Identifier,
    ) && kind_at(program, ip + 2) == Some(TokenType::Assign) && kind_at(program, ip + 3) == Some(
        TokenType::NumberLiteral,
    ) {
        Some(program[ip + 3].text)
    } else {
        None
    }
}

/// The name whose value the statement at `ip` reads, if it reads one: the
/// source of a well-formed `let`, or the operand of a `print`, a `goto` or an
/// `if`, where that is an identifier.
pub open spec fn name_read(program: Seq<TokenView>, ip: int) -> Option<Seq<char>> {
    match kind_at(program, ip) {
        Some(TokenType::Let) => if kind_at(program, ip + 1) == Some(TokenType::Identifier)
            && kind_at(program, ip + 2) == Some(TokenType::Assign) && kind_at(program, ip + 3)
            == Some(TokenType::Identifier) {
            Some(program[ip + 3].text)
        } else {
            None
        },
        Some(TokenType::PrintCall) | Some(TokenType::Goto) | Some(TokenType::Conditional) => if kind_at(
            program,
            ip + 1,
        ) == Some(TokenType::Identifier) {
            Some(program[ip + 1].text)
        } else {
            None
        },
        _ => None,
    }
}

/// `let x = <literal>` followed by `print x` prints the literal's value as
/// `print` renders it: for a string or a boolean literal that is the
/// literal's own text, for a number literal the decimal text form of the
/// number that it was read as.
pub proof fn lemma_let_then_print(
    program: Seq<TokenView>,
    env: Map<Seq<char>, ValueView>,
    ip: int,
    number: Option<NumberView>,
    later: Option<NumberView>,
)
    requires
        0 <= ip,
        ip + 6 <= program.len(),
        program[ip].kind == TokenType::Let,
        program[ip + 1].kind == TokenType::Identifier,
        program[ip + 2].kind == TokenType::Assign,
        program[ip + 3].kind == TokenType::StringLiteral || program[ip + 3].kind
            == TokenType::NumberLiteral || program[ip + 3].kind == TokenType::BooleanLiteral,
        program[ip + 4].kind == TokenType::PrintCall,
        program[ip + 5].kind == TokenType::Identifier,
        program[ip + 5].text == program[ip + 1].text,
        source_value(program[ip + 3], env, number) is Ok,
    ensures
        ({
            let value = source_value(program[ip + 3], env, number)->Ok_0;
            let bound = env.insert(program[ip + 1].text, value);
            &&& step_spec(program, env, ip, number) == Ok::<Outcome, RunError>(
                Outcome { env: bound, ip: ip + 4, line: None },
            )
            &&& step_spec(program, bound, ip + 4, later) == Ok::<Outcome, RunError>(
                Outcome { env: bound, ip: ip + 6, line: Some(print_line(rendered(value))) },
            )
            &&& program[ip + 3].kind != TokenType::NumberLiteral ==> rendered(value) == program[ip
                + 3].text
            &&& program[ip + 3].kind == TokenType::NumberLiteral ==> number is Some && rendered(value)
                == number->0.text
        }),
{
}

/// `let y = x`, where `x` is bound, binds `y` to what `x` holds and leaves
/// `x` as it was; and binding `y` anew afterwards, to any value, still leaves
/// `x` as it was.
pub proof fn lemma_let_copies(
    program: Seq<TokenView>,
    env: Map<Seq<char>, ValueView>,
    ip: int,
    number: Option<NumberView>,
    anew: ValueView,
)
    requires
        0 <= ip,
        ip + 4 <= program.len(),
        program[ip].kind == TokenType::Let,
        program[ip + 1].kind == TokenType::Identifier,
        program[ip + 2].kind == TokenType::Assign,
        program[ip + 3].kind == TokenType::Identifier,
        env.contains_key(program[ip + 3].text),
    ensures
        ({
            let y = program[ip + 1].text;
            let x = program[ip + 3].text;
            let bound = env.insert(y, env[x]);
            &&& step_spec(program, env, ip, number) == Ok::<Outcome, RunError>(
                Outcome { env: bound, ip: ip + 4, line: None },
            )
            &&& bound[y] == env[x]
            &&& bound[x] == env[x]
            &&& x != y ==> bound.insert(y, anew)[x] == env[x]
        }),
{
}

/// `goto n`, where `n` holds a number, sets the instruction pointer to the
/// number's truncation: an index into the token sequence, whatever tokens
/// stand there, and whether or not it lies within the sequence.
pub proof fn lemma_goto_variable(
    program: Seq<TokenView>,
    env: Map<Seq<char>, ValueView>,
    ip: int,
    number: Option<NumberView>,
)
    requires
        0 <= ip,
        ip + 2 <= program.len(),
        program[ip].kind == TokenType::Goto,
        program[ip + 1].kind == TokenType::Identifier,
        env.contains_key(program[ip + 1].text),
        env[program[ip + 1].text] is Number,
    ensures
        step_spec(program, env, ip, number) == Ok::<Outcome, RunError>(
            Outcome { env, ip: env[program[ip + 1].text]->Number_0.index as int, line: None },
        ),
{
}

/// With the instruction pointer beyond the end of the sequence the next
/// dispatch fails.
pub proof fn lemma_pointer_beyond_end_fails(
    program: Seq<TokenView>,
    env: Map<Seq<char>, ValueView>,
    ip: int,
    number: Option<NumberView>,
)
    requires
        ip > program.len(),
    ensures
        step_spec(program, env, ip, number) == Err::<Outcome, RunError>(RunError::PointerOutOfRange),
{
}

/// With the instruction pointer on a token that starts no statement (a
/// name, a literal, `=`, `{`, `(` or `)`) the next dispatch fails: nothing is
/// skipped to find a statement.
pub proof fn lemma_pointer_inside_statement_fails(
    program: Seq<TokenView>,
    env: Map<Seq<char>, ValueView>,
    ip: int,
    number: Option<NumberView>,
)
    requires
        0 <= ip < program.len(),
        program[ip].kind != TokenType::Let,
        program[ip].kind != TokenType::PrintCall,
        program[ip].kind != TokenType::Goto,
        program[ip].kind != TokenType::Conditional,
        program[ip].kind != TokenType::ConditionalElse,
        program[ip].kind != TokenType::ScopeJump,
    ensures
        step_spec(program, env, ip, number) == Err::<Outcome, RunError>(RunError::Syntax),
{
}

/// A `let`, `print`, `goto` or `if` that reads a name that is not bound fails
/// with [`RunError::UndefinedVariable`]; a failed dispatch has no output.
pub proof fn lemma_unbound_name_fails(
    program: Seq<TokenView>,
    env: Map<Seq<char>, ValueView>,
    ip: int,
    number: Option<NumberView>,
)
    requires
        name_read(program, ip) matches Some(name) && !env.contains_key(name),
    ensures
        step_spec(program, env, ip, number) == Err::<Outcome, RunError>(RunError::UndefinedVariable),
{
}

} // verus!
