use vstd::prelude::*;
use crate::errors::{
    BlockError, ExpressionError, FunctionError, LexerError, ParseError, ParseErrorKind, RErr, RuntimeError,
    SExpressionError, SFunctionError, SKind, STokensError, SVariableError, TokensError, VariableError,
};
use crate::positions::{Position, Span};
use crate::text::{dec_nat, push_all, push_dec_usize, push_str, string_of, chars_of};
use crate::token::{SToken, Token};

verus! {

/// What `Debug` writes for a string: the string in double quotes with escapes.
pub uninterp spec fn debug_str(s: Seq<char>) -> Seq<char>;

/// What `Debug` writes for a character: the character in single quotes with escapes.
pub uninterp spec fn debug_char(c: char) -> Seq<char>;

/// `Debug` for `str` (`format!("{:?}", s)`): the text is claimed to be
/// `debug_str(s)`, that is, to depend on the characters of `s` alone.
#[verifier::external_body]
fn str_debug(s: &str) -> (r: String)
    ensures
        r@ == debug_str(s@),
{
    format!("{:?}", s)
}

/// `Debug` for `char` (`format!("{:?}", c)`): the text is claimed to be
/// `debug_char(c)`, that is, to depend on `c` alone.
#[verifier::external_body]
fn char_debug(c: char) -> (r: String)
    ensures
        r@ == debug_char(c),
{
    format!("{:?}", c)
}

/// `name(inner)`, as `Debug` writes a tuple variant with one field.
pub open spec fn tuple1(name: Seq<char>, inner: Seq<char>) -> Seq<char> {
    name + "("@ + inner + ")"@
}

/// How `Debug` writes a token.
pub open spec fn token_debug(t: SToken) -> Seq<char> {
    match t {
        SToken::Var => "Var"@,
        SToken::Ver => "Ver"@,
        SToken::Ident(s) => tuple1("Ident"@, debug_str(s)),
        SToken::Number(n) => tuple1("Number"@, crate::text::dec_int(n as int)),
        SToken::Assign => "Assign"@,
        SToken::Plus => "Plus"@,
        SToken::Minus => "Minus"@,
        SToken::Star => "Star"@,
        SToken::Slash => "Slash"@,
        SToken::Semicolon => "Semicolon"@,
        SToken::LParen => "LParen"@,
        SToken::RParen => "RParen"@,
        SToken::Less => "Less"@,
        SToken::LessEqual => "LessEqual"@,
        SToken::Greater => "Greater"@,
        SToken::GreaterEqual => "GreaterEqual"@,
        SToken::Equal => "Equal"@,
        SToken::NotEqual => "NotEqual"@,
        SToken::If => "If"@,
        SToken::Else => "Else"@,
        SToken::LBrace => "LBrace"@,
        SToken::RBrace => "RBrace"@,
        SToken::While => "While"@,
        SToken::For => "For"@,
        SToken::PlusPlus => "PlusPlus"@,
        SToken::MinusMinus => "MinusMinus"@,
        SToken::Fun => "Fun"@,
        SToken::Return => "Return"@,
        SToken::Comma => "Comma"@,
        SToken::NewLine => "NewLine"@,
        SToken::Str(s) => tuple1("Str"@, debug_str(s)),
        SToken::Use => "Use"@,
    }
}

/// How `Debug` writes a lexer error.
pub open spec fn lexer_error_debug(e: LexerError) -> Seq<char> {
    match e {
        LexerError::InvalidCharacter(c) => tuple1("InvalidCharacter"@, debug_char(c)),
        LexerError::UnterminatedString => "UnterminatedString"@,
        LexerError::InvalidNumberFormat => "InvalidNumberFormat"@,
    }
}

/// How `Debug` writes a token error.
pub open spec fn tokens_error_debug(e: STokensError) -> Seq<char> {
    match e {
        STokensError::ExpectedToken(a, b) => tuple1("ExpectedToken"@, token_debug(a) + ", "@ + token_debug(b)),
        STokensError::UnexpectedToken(a) => tuple1("UnexpectedToken"@, token_debug(a)),
        STokensError::UnexpectedEOF => "UnexpectedEOF"@,
    }
}

/// How `Debug` writes a variable error.
pub open spec fn variable_error_debug(e: SVariableError) -> Seq<char> {
    match e {
        SVariableError::ExpectedIdentifier => "ExpectedIdentifier"@,
        SVariableError::AssignmentToImmutableVariable(s) => tuple1("AssignmentToImmutableVariable"@, debug_str(s)),
        SVariableError::InvalidAssignmentTarget => "InvalidAssignmentTarget"@,
    }
}

/// How `Debug` writes an expression error.
pub open spec fn expression_error_debug(e: SExpressionError) -> Seq<char> {
    match e {
        SExpressionError::InvalidPrimary(t) => tuple1("InvalidPrimary"@, token_debug(t)),
        SExpressionError::UnexpectedOperator(s) => tuple1("UnexpectedOperator"@, debug_str(s)),
        SExpressionError::MissingOperand => "MissingOperand"@,
        SExpressionError::InvalidPrefixOperator(s) => tuple1("InvalidPrefixOperator"@, debug_str(s)),
        SExpressionError::InvalidPostfixOperator(s) => tuple1("InvalidPostfixOperator"@, debug_str(s)),
        SExpressionError::DivideByZero => "DivideByZero"@,
    }
}

/// How `Debug` writes a function error.
pub open spec fn function_error_debug(e: SFunctionError) -> Seq<char> {
    match e {
        SFunctionError::ExpectedFunctionName => "ExpectedFunctionName"@,
        SFunctionError::ExpectedParameterName => "ExpectedParameterName"@,
        SFunctionError::DuplicateParameterName(s) => tuple1("DuplicateParameterName"@, debug_str(s)),
        SFunctionError::MissingClosingParenInCall => "MissingClosingParenInCall"@,
        SFunctionError::UnexpectedCommaInArguments => "UnexpectedCommaInArguments"@,
        SFunctionError::TooManyArguments => "TooManyArguments"@,
        SFunctionError::TooFewArguments => "TooFewArguments"@,
    }
}

/// How `Debug` writes a block error.
pub open spec fn block_error_debug(e: BlockError) -> Seq<char> {
    match e {
        BlockError::MissingOpeningBrace => "MissingOpeningBrace"@,
        BlockError::MissingClosingBrace => "MissingClosingBrace"@,
        BlockError::InvalidConditionExpression => "InvalidConditionExpression"@,
        BlockError::InvalidForInitializer => "InvalidForInitializer"@,
        BlockError::InvalidForIncrement => "InvalidForIncrement"@,
    }
}

/// How `Debug` writes a position.
pub open spec fn position_debug(p: Position) -> Seq<char> {
    "Position { line: "@ + dec_nat(p.line as nat) + ", column: "@ + dec_nat(p.column as nat) + " }"@
}

/// How `Debug` writes a span.
pub open spec fn span_debug(s: Span) -> Seq<char> {
    "Span { start: "@ + position_debug(s.start) + ", end: "@ + position_debug(s.end) + " }"@
}

/// `Name { name: "..", span: .. }`.
pub open spec fn named_at(variant: Seq<char>, name: Seq<char>, span: Span) -> Seq<char> {
    variant + " { name: "@ + debug_str(name) + ", span: "@ + span_debug(span) + " }"@
}

/// How `Debug` writes a runtime error.
pub open spec fn runtime_error_debug(e: RErr) -> Seq<char> {
    match e {
        RErr::UndefinedVariable { name, span } => named_at("UndefinedVariable"@, name, span),
        RErr::UndefinedFunction { name, span } => named_at("UndefinedFunction"@, name, span),
        RErr::ImmutableAssignment { name, span } => named_at("ImmutableAssignment"@, name, span),
        RErr::ArgumentMismatch { expected, got } => "ArgumentMismatch { expected: "@ + dec_nat(expected as nat)
            + ", got: "@ + dec_nat(got as nat) + " }"@,
        RErr::DivisionByZero => "DivisionByZero"@,
        RErr::IoError { name, span } => named_at("IoError"@, name, span),
        RErr::ImportNotFount { name, span } => named_at("ImportNotFount"@, name, span),
        RErr::IoErrorMassage { name, span, message } => "IoErrorMassage { name: "@ + debug_str(name) + ", span: "@
            + span_debug(span) + ", message: "@ + debug_str(message) + " }"@,
        RErr::ImportParseError { message, span } => "ImportParseError { message: "@ + debug_str(message)
            + ", span: "@ + span_debug(span) + " }"@,
        RErr::Fault { message } => "Fault { message: "@ + debug_str(message) + " }"@,
        RErr::StepLimit => "StepLimit"@,
    }
}

/// How `Debug` writes the kind of a parse error.
pub open spec fn kind_debug(k: SKind) -> Seq<char> {
    match k {
        SKind::Lexer(e) => tuple1("Lexer"@, lexer_error_debug(e)),
        SKind::Tokens(e) => tuple1("Tokens"@, tokens_error_debug(e)),
        SKind::Variable(e) => tuple1("Variable"@, variable_error_debug(e)),
        SKind::ExprError(e) => tuple1("ExprError"@, expression_error_debug(e)),
        SKind::FunError(e) => tuple1("FunError"@, function_error_debug(e)),
        SKind::Block(e) => tuple1("Block"@, block_error_debug(e)),
        SKind::Runtime(e) => tuple1("Runtime"@, runtime_error_debug(e)),
        SKind::Custom(s) => tuple1("Custom"@, debug_str(s)),
    }
}

/// The message of a runtime error.
pub open spec fn runtime_message(e: RErr) -> Seq<char> {
    match e {
        RErr::UndefinedVariable { name, .. } => "Undefined variable `"@ + name + "`"@,
        RErr::UndefinedFunction { name, .. } => "Undefined function `"@ + name + "`"@,
        RErr::ImmutableAssignment { name, .. } => "Cannot assign to immutable variable `"@ + name + "`"@,
        RErr::ArgumentMismatch { expected, got } => "Argument mismatch: expected "@ + dec_nat(expected as nat) + ", got "@
            + dec_nat(got as nat),
        RErr::DivisionByZero => "Division by zero"@,
        RErr::IoError { name, .. } => "no arguments were received in: "@ + name,
        RErr::ImportNotFount { name, .. } => "Module not found: "@ + name,
        RErr::IoErrorMassage { name, message, .. } => message + " in: "@ + name,
        RErr::ImportParseError { message, .. } => message,
        RErr::Fault { message } => message,
        RErr::StepLimit => "Step limit reached"@,
    }
}

/// How `Display` writes a runtime error.
pub open spec fn runtime_display(e: RErr) -> Seq<char> {
    match e {
        RErr::UndefinedVariable { name, .. } => "Undefined variable: "@ + name,
        RErr::UndefinedFunction { name, .. } => "Undefined function: "@ + name,
        RErr::ImmutableAssignment { name, .. } => "Cannot assign to immutable variable: "@ + name,
        _ => runtime_message(e),
    }
}

/// `ParseErrorKind::message`: the message of a runtime error, or how `Debug`
/// writes any other kind.
pub open spec fn kind_message(k: SKind) -> Seq<char> {
    match k {
        SKind::Runtime(e) => runtime_message(e),
        _ => kind_debug(k),
    }
}

fn push_tuple1_str(buf: &mut Vec<char>, name: &str, inner: &String)
    ensures
        final(buf)@ == old(buf)@ + tuple1(name@, debug_str(inner@)),
{
    push_str(buf, name);
    push_str(buf, "(");
    let d = str_debug(inner.as_str());
    push_str(buf, d.as_str());
    push_str(buf, ")");
    assert(final(buf)@ =~= old(buf)@ + tuple1(name@, debug_str(inner@)));
}

fn push_token_debug(buf: &mut Vec<char>, t: &Token)
    ensures
        final(buf)@ == old(buf)@ + token_debug(t@),
{
    let ghost b0 = buf@;
    match t {
        Token::Var => push_str(buf, "Var"),
        Token::Ver => push_str(buf, "Ver"),
        Token::Ident(s) => push_tuple1_str(buf, "Ident", s),
        Token::Number(n) => {
            push_str(buf, "Number");
                    push_str(buf, "(");
            crate::text::push_dec_i64(buf, *n);
            push_str(buf, ")");
            assert(buf@ =~= b0 + token_debug(t@));
        },
        Token::Assign => push_str(buf, "Assign"),
        Token::Plus => push_str(buf, "Plus"),
        Token::Minus => push_str(buf, "Minus"),
        Token::Star => push_str(buf, "Star"),
        Token::Slash => push_str(buf, "Slash"),
        Token::Semicolon => push_str(buf, "Semicolon"),
        Token::LParen => push_str(buf, "LParen"),
        Token::RParen => push_str(buf, "RParen"),
        Token::Less => push_str(buf, "Less"),
        Token::LessEqual => push_str(buf, "LessEqual"),
        Token::Greater => push_str(buf, "Greater"),
        Token::GreaterEqual => push_str(buf, "GreaterEqual"),
        Token::Equal => push_str(buf, "Equal"),
        Token::NotEqual => push_str(buf, "NotEqual"),
        Token::If => push_str(buf, "If"),
        Token::Else => push_str(buf, "Else"),
        Token::LBrace => push_str(buf, "LBrace"),
        Token::RBrace => push_str(buf, "RBrace"),
        Token::While => push_str(buf, "While"),
        Token::For => push_str(buf, "For"),
        Token::PlusPlus => push_str(buf, "PlusPlus"),
        Token::MinusMinus => push_str(buf, "MinusMinus"),
        Token::Fun => push_str(buf, "Fun"),
        Token::Return => push_str(buf, "Return"),
        Token::Comma => push_str(buf, "Comma"),
        Token::NewLine => push_str(buf, "NewLine"),
        Token::Str(s) => push_tuple1_str(buf, "Str", s),
        Token::Use => push_str(buf, "Use"),
    }
}

fn push_position_debug(buf: &mut Vec<char>, p: Position)
    ensures
        final(buf)@ == old(buf)@ + position_debug(p),
{
    push_str(buf, "Position { line: ");
    push_dec_usize(buf, p.line);
    push_str(buf, ", column: ");
    push_dec_usize(buf, p.column);
    push_str(buf, " }");
    assert(final(buf)@ =~= old(buf)@ + position_debug(p));
}

fn push_span_debug(buf: &mut Vec<char>, s: Span)
    ensures
        final(buf)@ == old(buf)@ + span_debug(s),
{
    push_str(buf, "Span { start: ");
    push_position_debug(buf, s.start);
    push_str(buf, ", end: ");
    push_position_debug(buf, s.end);
    push_str(buf, " }");
    assert(final(buf)@ =~= old(buf)@ + span_debug(s));
}

fn push_debug_str(buf: &mut Vec<char>, s: &String)
    ensures
        final(buf)@ == old(buf)@ + debug_str(s@),
{
    let d = str_debug(s.as_str());
    push_str(buf, d.as_str());
}

fn push_named_at(buf: &mut Vec<char>, variant: &str, name: &String, span: Span)
    ensures
        final(buf)@ == old(buf)@ + named_at(variant@, name@, span),
{
    push_str(buf, variant);
    push_str(buf, " { name: ");
    push_debug_str(buf, name);
    push_str(buf, ", span: ");
    push_span_debug(buf, span);
    push_str(buf, " }");
    assert(final(buf)@ =~= old(buf)@ + named_at(variant@, name@, span));
}

fn push_runtime_error_debug(buf: &mut Vec<char>, e: &RuntimeError)
    ensures
        final(buf)@ == old(buf)@ + runtime_error_debug(e@),
{
    match e {
        RuntimeError::UndefinedVariable { name, span } => push_named_at(buf, "UndefinedVariable", name, *span),
        RuntimeError::UndefinedFunction { name, span } => push_named_at(buf, "UndefinedFunction", name, *span),
        RuntimeError::ImmutableAssignment { name, span } => push_named_at(buf, "ImmutableAssignment", name, *span),
        RuntimeError::ArgumentMismatch { expected, got } => {
            push_str(buf, "ArgumentMismatch { expected: ");
            push_dec_usize(buf, *expected);
            push_str(buf, ", got: ");
            push_dec_usize(buf, *got);
            push_str(buf, " }");
            assert(final(buf)@ =~= old(buf)@ + runtime_error_debug(e@));
        },
        RuntimeError::DivisionByZero => push_str(buf, "DivisionByZero"),
        RuntimeError::IoError { name, span } => push_named_at(buf, "IoError", name, *span),
        RuntimeError::ImportNotFount { name, span } => push_named_at(buf, "ImportNotFount", name, *span),
        RuntimeError::IoErrorMassage { name, span, message } => {
            push_str(buf, "IoErrorMassage { name: ");
            push_debug_str(buf, name);
            push_str(buf, ", span: ");
            push_span_debug(buf, *span);
            push_str(buf, ", message: ");
            push_debug_str(buf, message);
            push_str(buf, " }");
            assert(final(buf)@ =~= old(buf)@ + runtime_error_debug(e@));
        },
        RuntimeError::ImportParseError { message, span } => {
            push_str(buf, "ImportParseError { message: ");
            push_debug_str(buf, message);
            push_str(buf, ", span: ");
            push_span_debug(buf, *span);
            push_str(buf, " }");
            assert(final(buf)@ =~= old(buf)@ + runtime_error_debug(e@));
        },
        RuntimeError::Fault { message } => {
            push_str(buf, "Fault { message: ");
            push_debug_str(buf, message);
            push_str(buf, " }");
            assert(final(buf)@ =~= old(buf)@ + runtime_error_debug(e@));
        },
        RuntimeError::StepLimit => push_str(buf, "StepLimit"),
    }
}

/// How `Debug` writes a runtime error (what `{:?}` gives).
pub fn runtime_error_debug_string(e: &RuntimeError) -> (r: String)
    ensures
        r@ == runtime_error_debug(e@),
{
    let mut b: Vec<char> = Vec::new();
    push_runtime_error_debug(&mut b, e);
    assert(b@ =~= runtime_error_debug(e@));
    string_of(&b)
}

fn push_lexer_error_debug(buf: &mut Vec<char>, e: &LexerError)
    ensures
        final(buf)@ == old(buf)@ + lexer_error_debug(*e),
{
    let ghost b0 = buf@;
    match e {
        LexerError::InvalidCharacter(c) => {
            push_str(buf, "InvalidCharacter");
            push_str(buf, "(");
            let d = char_debug(*c);
            push_str(buf, d.as_str());
            push_str(buf, ")");
        },
        LexerError::UnterminatedString => push_str(buf, "UnterminatedString"),
        LexerError::InvalidNumberFormat => push_str(buf, "InvalidNumberFormat"),
    }
    assert(buf@ =~= b0 + lexer_error_debug(*e));
}

fn push_tokens_error_debug(buf: &mut Vec<char>, e: &TokensError)
    ensures
        final(buf)@ == old(buf)@ + tokens_error_debug(e@),
{
    let ghost b0 = buf@;
    match e {
        TokensError::ExpectedToken(a, b) => {
            push_str(buf, "ExpectedToken");
            push_str(buf, "(");
            push_token_debug(buf, a);
            push_str(buf, ", ");
            push_token_debug(buf, b);
            push_str(buf, ")");
        },
        TokensError::UnexpectedToken(a) => {
            push_str(buf, "UnexpectedToken");
            push_str(buf, "(");
            push_token_debug(buf, a);
            push_str(buf, ")");
        },
        TokensError::UnexpectedEOF => push_str(buf, "UnexpectedEOF"),
    }
    assert(buf@ =~= b0 + tokens_error_debug(e@));
}

fn push_variable_error_debug(buf: &mut Vec<char>, e: &VariableError)
    ensures
        final(buf)@ == old(buf)@ + variable_error_debug(e@),
{
    match e {
        VariableError::ExpectedIdentifier => push_str(buf, "ExpectedIdentifier"),
        VariableError::AssignmentToImmutableVariable(s) => push_tuple1_str(buf, "AssignmentToImmutableVariable", s),
        VariableError::InvalidAssignmentTarget => push_str(buf, "InvalidAssignmentTarget"),
    }
}

fn push_expression_error_debug(buf: &mut Vec<char>, e: &ExpressionError)
    ensures
        final(buf)@ == old(buf)@ + expression_error_debug(e@),
{
    let ghost b0 = buf@;
    match e {
        ExpressionError::InvalidPrimary(t) => {
            push_str(buf, "InvalidPrimary");
            push_str(buf, "(");
            push_token_debug(buf, t);
            push_str(buf, ")");
        },
        ExpressionError::UnexpectedOperator(s) => push_tuple1_str(buf, "UnexpectedOperator", s),
        ExpressionError::MissingOperand => push_str(buf, "MissingOperand"),
        ExpressionError::InvalidPrefixOperator(s) => push_tuple1_str(buf, "InvalidPrefixOperator", s),
        ExpressionError::InvalidPostfixOperator(s) => push_tuple1_str(buf, "InvalidPostfixOperator", s),
        ExpressionError::DivideByZero => push_str(buf, "DivideByZero"),
    }
    assert(buf@ =~= b0 + expression_error_debug(e@));
}

fn push_function_error_debug(buf: &mut Vec<char>, e: &FunctionError)
    ensures
        final(buf)@ == old(buf)@ + function_error_debug(e@),
{
    match e {
        FunctionError::ExpectedFunctionName => push_str(buf, "ExpectedFunctionName"),
        FunctionError::ExpectedParameterName => push_str(buf, "ExpectedParameterName"),
        FunctionError::DuplicateParameterName(s) => push_tuple1_str(buf, "DuplicateParameterName", s),
        FunctionError::MissingClosingParenInCall => push_str(buf, "MissingClosingParenInCall"),
        FunctionError::UnexpectedCommaInArguments => push_str(buf, "UnexpectedCommaInArguments"),
        FunctionError::TooManyArguments => push_str(buf, "TooManyArguments"),
        FunctionError::TooFewArguments => push_str(buf, "TooFewArguments"),
    }
}

fn push_block_error_debug(buf: &mut Vec<char>, e: &BlockError)
    ensures
        final(buf)@ == old(buf)@ + block_error_debug(*e),
{
    match e {
        BlockError::MissingOpeningBrace => push_str(buf, "MissingOpeningBrace"),
        BlockError::MissingClosingBrace => push_str(buf, "MissingClosingBrace"),
        BlockError::InvalidConditionExpression => push_str(buf, "InvalidConditionExpression"),
        BlockError::InvalidForInitializer => push_str(buf, "InvalidForInitializer"),
        BlockError::InvalidForIncrement => push_str(buf, "InvalidForIncrement"),
    }
}

fn push_kind_debug(buf: &mut Vec<char>, k: &ParseErrorKind)
    ensures
        final(buf)@ == old(buf)@ + kind_debug(k@),
{
    let ghost b0 = buf@;
    match k {
        ParseErrorKind::Lexer(e) => {
            push_str(buf, "Lexer");
            push_str(buf, "(");
            push_lexer_error_debug(buf, e);
            push_str(buf, ")");
        },
        ParseErrorKind::Tokens(e) => {
            push_str(buf, "Tokens");
            push_str(buf, "(");
            push_tokens_error_debug(buf, e);
            push_str(buf, ")");
        },
        ParseErrorKind::Variable(e) => {
            push_str(buf, "Variable");
            push_str(buf, "(");
            push_variable_error_debug(buf, e);
            push_str(buf, ")");
        },
        ParseErrorKind::ExprError(e) => {
            push_str(buf, "ExprError");
            push_str(buf, "(");
            push_expression_error_debug(buf, e);
            push_str(buf, ")");
        },
        ParseErrorKind::FunError(e) => {
            push_str(buf, "FunError");
            push_str(buf, "(");
            push_function_error_debug(buf, e);
            push_str(buf, ")");
        },
        ParseErrorKind::Block(e) => {
            push_str(buf, "Block");
            push_str(buf, "(");
            push_block_error_debug(buf, e);
            push_str(buf, ")");
        },
        ParseErrorKind::Runtime(e) => {
            push_str(buf, "Runtime");
            push_str(buf, "(");
            push_runtime_error_debug(buf, e);
            push_str(buf, ")");
        },
        ParseErrorKind::Custom(s) => push_tuple1_str(buf, "Custom", s),
    }
    assert(buf@ =~= b0 + kind_debug(k@));
}

fn push_runtime_message(buf: &mut Vec<char>, e: &RuntimeError)
    ensures
        final(buf)@ == old(buf)@ + runtime_message(e@),
{
    let ghost b0 = buf@;
    match e {
        RuntimeError::UndefinedVariable { name, .. } => {
            push_str(buf, "Undefined variable `");
            push_str(buf, name.as_str());
            push_str(buf, "`");
        },
        RuntimeError::UndefinedFunction { name, .. } => {
            push_str(buf, "Undefined function `");
            push_str(buf, name.as_str());
            push_str(buf, "`");
        },
        RuntimeError::ImmutableAssignment { name, .. } => {
            push_str(buf, "Cannot assign to immutable variable `");
            push_str(buf, name.as_str());
            push_str(buf, "`");
        },
        RuntimeError::ArgumentMismatch { expected, got } => {
            push_str(buf, "Argument mismatch: expected ");
            push_dec_usize(buf, *expected);
            push_str(buf, ", got ");
            push_dec_usize(buf, *got);
        },
        RuntimeError::DivisionByZero => push_str(buf, "Division by zero"),
        RuntimeError::IoError { name, .. } => {
            push_str(buf, "no arguments were received in: ");
            push_str(buf, name.as_str());
        },
        RuntimeError::ImportNotFount { name, .. } => {
            push_str(buf, "Module not found: ");
            push_str(buf, name.as_str());
        },
        RuntimeError::IoErrorMassage { name, message, .. } => {
            push_str(buf, message.as_str());
            push_str(buf, " in: ");
            push_str(buf, name.as_str());
        },
        RuntimeError::ImportParseError { message, .. } => push_str(buf, message.as_str()),
        RuntimeError::Fault { message } => push_str(buf, message.as_str()),
        RuntimeError::StepLimit => push_str(buf, "Step limit reached"),
    }
    assert(buf@ =~= b0 + runtime_message(e@));
}

impl RuntimeError {
    /// The text of the error (what `Display` writes): a sentence naming what went wrong.
    pub fn to_text(&self) -> (r: String)
        ensures
            r@ == runtime_display(self@),
    {
        let mut b: Vec<char> = Vec::new();
        match self {
            RuntimeError::UndefinedVariable { name, .. } => {
                push_str(&mut b, "Undefined variable: ");
                push_str(&mut b, name.as_str());
            },
            RuntimeError::UndefinedFunction { name, .. } => {
                push_str(&mut b, "Undefined function: ");
                push_str(&mut b, name.as_str());
            },
            RuntimeError::ImmutableAssignment { name, .. } => {
                push_str(&mut b, "Cannot assign to immutable variable: ");
                push_str(&mut b, name.as_str());
            },
            _ => push_runtime_message(&mut b, self),
        }
        assert(b@ =~= runtime_display(self@));
        string_of(&b)
    }
}

impl ParseErrorKind {
    /// The message of the error: a sentence for runtime errors, the `Debug`
    /// form for the other kinds.
    pub fn message(&self) -> (r: String)
        ensures
            r@ == kind_message(self@),
    {
        let mut b: Vec<char> = Vec::new();
        match self {
            ParseErrorKind::Runtime(e) => push_runtime_message(&mut b, e),
            _ => push_kind_debug(&mut b, self),
        }
        assert(b@ =~= kind_message(self@));
        string_of(&b)
    }
}

/// The lines of a text as `str::lines` gives them: split at `\n`, a `\r`
/// right before the `\n` dropped, no empty last line after a final `\n`.
pub open spec fn text_lines(s: Seq<char>) -> Seq<Seq<char>>
    decreases s.len(),
{
    if s.len() == 0 {
        Seq::empty()
    } else {
        let i = first_newline(s, 0);
        if i < 0 || i >= s.len() {
            seq![s]
        } else {
            let line = s.subrange(0, i);
            let line = if line.len() > 0 && line.last() == '\r' { line.drop_last() } else { line };
            seq![line] + text_lines(s.subrange(i + 1, s.len() as int))
        }
    }
}

/// The index of the first `\n` at or after `j` (the length if there is none).
pub open spec fn first_newline(s: Seq<char>, j: int) -> int
    decreases s.len() - j,
{
    if j < 0 || j >= s.len() || s[j] == '\n' {
        j
    } else {
        first_newline(s, j + 1)
    }
}

/// Line `n` (counting from 0) of a text, or the empty text if there is none.
pub open spec fn nth_line(s: Seq<char>, n: int) -> Seq<char> {
    let ls = text_lines(s);
    if 0 <= n < ls.len() { ls[n] } else { Seq::empty() }
}

/// `n` spaces.
pub open spec fn spaces(n: nat) -> Seq<char> {
    Seq::new(n, |_i: int| ' ')
}

/// `n - 1`, or 0 when `n` is 0.
pub open spec fn minus_one(n: usize) -> nat {
    if n == 0 { 0 } else { (n - 1) as nat }
}

/// The text of a report: the message, where the error is, the line of source
/// it is on and a caret under its column.
pub open spec fn report_text(message: Seq<char>, file: Seq<char>, source: Seq<char>, span: Span) -> Seq<char> {
    "REPORT_START:\n"@
        + "ERROR: "@ + debug_str(message) + "\n"@
        + " --> "@ + file + ":"@ + dec_nat(span.start.line as nat) + ":"@ + dec_nat(span.start.column as nat) + "\n"@
        + "\n"@ + dec_nat(span.start.line as nat) + " | "@ + nth_line(source, minus_one(span.start.line) as int) + "\n"@
        + "  | "@ + spaces(minus_one(span.start.column)) + "^"@ + "\n"@
}

proof fn lemma_first_newline(s: Seq<char>, j: int)
    requires
        0 <= j <= s.len(),
    ensures
        j <= first_newline(s, j) <= s.len(),
        forall|k: int| j <= k < first_newline(s, j) ==> s[k] != '\n',
        first_newline(s, j) < s.len() ==> s[first_newline(s, j)] == '\n',
    decreases s.len() - j,
{
    if j < s.len() && s[j] != '\n' {
        lemma_first_newline(s, j + 1);
    }
}

fn find_newline(cs: &Vec<char>, j0: usize) -> (r: usize)
    requires
        j0 <= cs.len(),
    ensures
        r == first_newline(cs@, j0 as int),
{
    let mut j = j0;
    while j < cs.len() && cs[j] != '\n'
        invariant
            j0 <= j <= cs.len(),
            first_newline(cs@, j0 as int) == first_newline(cs@, j as int),
        decreases cs.len() - j,
    {
        j = j + 1;
    }
    j
}

proof fn lemma_first_newline_shift(s: Seq<char>, a: int, j: int)
    requires
        0 <= a <= j <= s.len(),
    ensures
        first_newline(s.subrange(a, s.len() as int), j - a) == first_newline(s, j) - a,
    decreases s.len() - j,
{
    if j < s.len() && s[j] != '\n' {
        lemma_first_newline_shift(s, a, j + 1);
    }
}

fn line_at(cs: &Vec<char>, n: usize) -> (r: Vec<char>)
    ensures
        r@ == nth_line(cs@, n as int),
{
    let mut start: usize = 0;
    let mut k: usize = 0;
    proof { assert(cs@.subrange(0, cs@.len() as int) =~= cs@); }
    while k < n
        invariant
            start <= cs.len(),
            k <= n,
            nth_line(cs@, n as int) == nth_line(cs@.subrange(start as int, cs@.len() as int), n - k),
        decreases n - k,
    {
        let ghost rest = cs@.subrange(start as int, cs@.len() as int);
        if start >= cs.len() {
            assert(rest.len() == 0);
            assert(text_lines(rest) =~= Seq::<Seq<char>>::empty());
            return Vec::new();
        }
        let i = find_newline(cs, start);
        proof {
            lemma_first_newline(cs@, start as int);
            lemma_first_newline_shift(cs@, start as int, start as int);
        }
        if i >= cs.len() {
            proof {
                assert(text_lines(rest) == seq![rest]);
            }
            return Vec::new();
        }
        proof {
            let next = cs@.subrange(i + 1, cs@.len() as int);
            assert(rest.subrange(i - start + 1, rest.len() as int) =~= next);
            let tl = text_lines(next);
            let first = rest.subrange(0, i - start);
            let first = if first.len() > 0 && first.last() == '\r' { first.drop_last() } else { first };
            assert(text_lines(rest) == seq![first] + tl);
            assert((seq![first] + tl).len() == tl.len() + 1);
            if n - k - 1 >= 0 && n - k - 1 < tl.len() {
                assert((seq![first] + tl)[n - k] == tl[n - k - 1]);
            }
        }
        start = i + 1;
        k = k + 1;
    }
    let ghost rest = cs@.subrange(start as int, cs@.len() as int);
    if start >= cs.len() {
        assert(rest.len() == 0);
        assert(text_lines(rest) =~= Seq::<Seq<char>>::empty());
        return Vec::new();
    }
    let i = find_newline(cs, start);
    proof {
        lemma_first_newline(cs@, start as int);
        lemma_first_newline_shift(cs@, start as int, start as int);
    }
    let mut end = i;
    if i < cs.len() && end > start && cs[end - 1] == '\r' {
        end = end - 1;
    }
    let mut v: Vec<char> = Vec::new();
    let mut m = start;
    while m < end
        invariant
            start <= m <= end <= cs.len(),
            v@ == cs@.subrange(start as int, m as int),
        decreases end - m,
    {
        v.push(cs[m]);
        m = m + 1;
        assert(v@ =~= cs@.subrange(start as int, m as int));
    }
    proof {
        if i >= cs.len() {
            assert(text_lines(rest) == seq![rest]);
            assert(v@ =~= rest);
        } else {
            let first = rest.subrange(0, i - start);
            assert(text_lines(rest) == seq![if first.len() > 0 && first.last() == '\r' { first.drop_last() } else { first }] + text_lines(rest.subrange(i - start + 1, rest.len() as int)));
            assert(v@ =~= (if first.len() > 0 && first.last() == '\r' { first.drop_last() } else { first }));
        }
    }
    v
}

impl ParseError {
    /// The report of the error: its message, the file, line and column, the
    /// source line and a caret under the column.
    pub fn get_report_string(&self) -> (r: String)
        ensures
            r@ == report_text(kind_message(self.kind@), self.file@, self.source@, self.span),
    {
        let mut b: Vec<char> = Vec::new();
        push_str(&mut b, "REPORT_START:\n");
        push_str(&mut b, "ERROR: ");
        let m = self.kind.message();
        let d = str_debug(m.as_str());
        push_str(&mut b, d.as_str());
        push_str(&mut b, "\n");
        push_str(&mut b, " --> ");
        push_str(&mut b, self.file.as_str());
        push_str(&mut b, ":");
        push_dec_usize(&mut b, self.span.start.line);
        push_str(&mut b, ":");
        push_dec_usize(&mut b, self.span.start.column);
        push_str(&mut b, "\n");
        push_str(&mut b, "\n");
        push_dec_usize(&mut b, self.span.start.line);
        push_str(&mut b, " | ");
        let src = chars_of(self.source.as_str());
        let ln = if self.span.start.line == 0 { 0 } else { self.span.start.line - 1 };
        let line = line_at(&src, ln);
        push_all(&mut b, &line);
        push_str(&mut b, "\n");
        push_str(&mut b, "  | ");
        let col = if self.span.start.column == 0 { 0 } else { self.span.start.column - 1 };
        let mut k: usize = 0;
        let ghost b1 = b@;
        while k < col
            invariant
                k <= col,
                b@ == b1 + spaces(k as nat),
            decreases col - k,
        {
            b.push(' ');
            k = k + 1;
            assert(b@ =~= b1 + spaces(k as nat));
        }
        push_str(&mut b, "^");
        push_str(&mut b, "\n");
        assert(b@ =~= report_text(kind_message(self.kind@), self.file@, self.source@, self.span));
        string_of(&b)
    }
}

} // verus!
