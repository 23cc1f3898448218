use vstd::prelude::*;
use crate::positions::Span;
use crate::token::{SToken, Token};

verus! {

// ==================== LEXER ERRORS ====================
/// Errors of the lexer.
#[derive(Debug, Clone, Copy)]
pub enum LexerError {
    InvalidCharacter(char),
    UnterminatedString,
    InvalidNumberFormat,
}

// ==================== TOKEN ERRORS ====================
/// Errors about which token stands where.
#[derive(Debug)]
pub enum TokensError {
    ExpectedToken(Token, Token),
    UnexpectedToken(Token),
    UnexpectedEOF,
}

/// The mathematical value of a `TokensError`.
pub enum STokensError {
    ExpectedToken(SToken, SToken),
    UnexpectedToken(SToken),
    UnexpectedEOF,
}

impl View for TokensError {
    type V = STokensError;

    open spec fn view(&self) -> STokensError {
        match self {
            TokensError::ExpectedToken(a, b) => STokensError::ExpectedToken(a@, b@),
            TokensError::UnexpectedToken(a) => STokensError::UnexpectedToken(a@),
            TokensError::UnexpectedEOF => STokensError::UnexpectedEOF,
        }
    }
}

// ==================== VARIABLE / IDENTIFIER ERRORS ====================
/// Errors about variables.
#[derive(Debug)]
pub enum VariableError {
    ExpectedIdentifier,
    AssignmentToImmutableVariable(String),
    InvalidAssignmentTarget,
}

/// The mathematical value of a `VariableError`.
pub enum SVariableError {
    ExpectedIdentifier,
    AssignmentToImmutableVariable(Seq<char>),
    InvalidAssignmentTarget,
}

impl View for VariableError {
    type V = SVariableError;

    open spec fn view(&self) -> SVariableError {
        match self {
            VariableError::ExpectedIdentifier => SVariableError::ExpectedIdentifier,
            VariableError::AssignmentToImmutableVariable(s) => SVariableError::AssignmentToImmutableVariable(s@),
            VariableError::InvalidAssignmentTarget => SVariableError::InvalidAssignmentTarget,
        }
    }
}

// ==================== EXPRESSION ERRORS ====================
/// Errors in expressions.
#[derive(Debug)]
pub enum ExpressionError {
    InvalidPrimary(Token),
    UnexpectedOperator(String),
    MissingOperand,
    InvalidPrefixOperator(String),
    InvalidPostfixOperator(String),
    DivideByZero,
}

/// The mathematical value of an `ExpressionError`.
pub enum SExpressionError {
    InvalidPrimary(SToken),
    UnexpectedOperator(Seq<char>),
    MissingOperand,
    InvalidPrefixOperator(Seq<char>),
    InvalidPostfixOperator(Seq<char>),
    DivideByZero,
}

impl View for ExpressionError {
    type V = SExpressionError;

    open spec fn view(&self) -> SExpressionError {
        match self {
            ExpressionError::InvalidPrimary(t) => SExpressionError::InvalidPrimary(t@),
            ExpressionError::UnexpectedOperator(s) => SExpressionError::UnexpectedOperator(s@),
            ExpressionError::MissingOperand => SExpressionError::MissingOperand,
            ExpressionError::InvalidPrefixOperator(s) => SExpressionError::InvalidPrefixOperator(s@),
            ExpressionError::InvalidPostfixOperator(s) => SExpressionError::InvalidPostfixOperator(s@),
            ExpressionError::DivideByZero => SExpressionError::DivideByZero,
        }
    }
}

// ==================== FUNCTION ERRORS ====================
/// Errors about functions.
#[derive(Debug)]
pub enum FunctionError {
    ExpectedFunctionName,
    ExpectedParameterName,
    DuplicateParameterName(String),
    MissingClosingParenInCall,
    UnexpectedCommaInArguments,
    TooManyArguments,
    TooFewArguments,
}

/// The mathematical value of a `FunctionError`.
pub enum SFunctionError {
    ExpectedFunctionName,
    ExpectedParameterName,
    DuplicateParameterName(Seq<char>),
    MissingClosingParenInCall,
    UnexpectedCommaInArguments,
    TooManyArguments,
    TooFewArguments,
}

impl View for FunctionError {
    type V = SFunctionError;

    open spec fn view(&self) -> SFunctionError {
        match self {
            FunctionError::ExpectedFunctionName => SFunctionError::ExpectedFunctionName,
            FunctionError::ExpectedParameterName => SFunctionError::ExpectedParameterName,
            FunctionError::DuplicateParameterName(s) => SFunctionError::DuplicateParameterName(s@),
            FunctionError::MissingClosingParenInCall => SFunctionError::MissingClosingParenInCall,
            FunctionError::UnexpectedCommaInArguments => SFunctionError::UnexpectedCommaInArguments,
            FunctionError::TooManyArguments => SFunctionError::TooManyArguments,
            FunctionError::TooFewArguments => SFunctionError::TooFewArguments,
        }
    }
}

// ==================== BLOCK / CONTROL FLOW ERRORS ====================
/// Errors about blocks and control flow.
#[derive(Debug, Clone, Copy)]
pub enum BlockError {
    MissingOpeningBrace,
    MissingClosingBrace,
    InvalidConditionExpression,
    InvalidForInitializer,
    InvalidForIncrement,
}

// ==================== RUNTIME ERRORS ====================
/// Errors raised while a program runs.
#[derive(Debug, Clone)]
pub enum RuntimeError {
    UndefinedVariable { name: String, span: Span },
    UndefinedFunction { name: String, span: Span },
    ImmutableAssignment { name: String, span: Span },
    ArgumentMismatch { expected: usize, got: usize },
    DivisionByZero,
    IoError { name: String, span: Span },
    /// A module named in `use` could not be found or read.
    ImportNotFount { name: String, span: Span },
    /// A builtin failed with a message.
    IoErrorMassage { name: String, span: Span, message: String },
    /// A module named in `use` does not parse.
    ImportParseError { message: String, span: Span },
    /// An operation that has no result (the message says which), such as
    /// subtracting strings or an integer overflow.
    Fault { message: String },
    /// The program ran longer than the step budget it was given.
    StepLimit,
}

/// The mathematical value of a `RuntimeError`.
pub enum RErr {
    UndefinedVariable { name: Seq<char>, span: Span },
    UndefinedFunction { name: Seq<char>, span: Span },
    ImmutableAssignment { name: Seq<char>, span: Span },
    ArgumentMismatch { expected: usize, got: usize },
    DivisionByZero,
    IoError { name: Seq<char>, span: Span },
    ImportNotFount { name: Seq<char>, span: Span },
    IoErrorMassage { name: Seq<char>, span: Span, message: Seq<char> },
    ImportParseError { message: Seq<char>, span: Span },
    Fault { message: Seq<char> },
    StepLimit,
}

impl View for RuntimeError {
    type V = RErr;

    open spec fn view(&self) -> RErr {
        match self {
            RuntimeError::UndefinedVariable { name, span } => RErr::UndefinedVariable { name: name@, span: *span },
            RuntimeError::UndefinedFunction { name, span } => RErr::UndefinedFunction { name: name@, span: *span },
            RuntimeError::ImmutableAssignment { name, span } => RErr::ImmutableAssignment { name: name@, span: *span },
            RuntimeError::ArgumentMismatch { expected, got } => RErr::ArgumentMismatch { expected: *expected, got: *got },
            RuntimeError::DivisionByZero => RErr::DivisionByZero,
            RuntimeError::IoError { name, span } => RErr::IoError { name: name@, span: *span },
            RuntimeError::ImportNotFount { name, span } => RErr::ImportNotFount { name: name@, span: *span },
            RuntimeError::IoErrorMassage { name, span, message } => RErr::IoErrorMassage { name: name@, span: *span, message: message@ },
            RuntimeError::ImportParseError { message, span } => RErr::ImportParseError { message: message@, span: *span },
            RuntimeError::Fault { message } => RErr::Fault { message: message@ },
            RuntimeError::StepLimit => RErr::StepLimit,
        }
    }
}

/// The span that an error points at (the default span where it carries none).
pub open spec fn rerr_span(e: RErr) -> Span {
    match e {
        RErr::UndefinedVariable { span, .. } => span,
        RErr::UndefinedFunction { span, .. } => span,
        RErr::ImmutableAssignment { span, .. } => span,
        RErr::IoError { span, .. } => span,
        RErr::ImportNotFount { span, .. } => span,
        RErr::IoErrorMassage { span, .. } => span,
        RErr::ImportParseError { span, .. } => span,
        _ => Span::default_spec(),
    }
}

impl RuntimeError {
    /// A copy of the error.
    pub fn dup(&self) -> (r: RuntimeError)
        ensures
            r@ == self@,
    {
        match self {
            RuntimeError::UndefinedVariable { name, span } => RuntimeError::UndefinedVariable { name: name.clone(), span: *span },
            RuntimeError::UndefinedFunction { name, span } => RuntimeError::UndefinedFunction { name: name.clone(), span: *span },
            RuntimeError::ImmutableAssignment { name, span } => RuntimeError::ImmutableAssignment { name: name.clone(), span: *span },
            RuntimeError::ArgumentMismatch { expected, got } => RuntimeError::ArgumentMismatch { expected: *expected, got: *got },
            RuntimeError::DivisionByZero => RuntimeError::DivisionByZero,
            RuntimeError::IoError { name, span } => RuntimeError::IoError { name: name.clone(), span: *span },
            RuntimeError::ImportNotFount { name, span } => RuntimeError::ImportNotFount { name: name.clone(), span: *span },
            RuntimeError::IoErrorMassage { name, span, message } => RuntimeError::IoErrorMassage { name: name.clone(), span: *span, message: message.clone() },
            RuntimeError::ImportParseError { message, span } => RuntimeError::ImportParseError { message: message.clone(), span: *span },
            RuntimeError::Fault { message } => RuntimeError::Fault { message: message.clone() },
            RuntimeError::StepLimit => RuntimeError::StepLimit,
        }
    }

    /// The span that the error points at; errors that carry none give the default span.
    pub fn span(&self) -> (r: Span)
        ensures
            r == rerr_span(self@),
    {
        match self {
            RuntimeError::UndefinedVariable { span, .. } => *span,
            RuntimeError::UndefinedFunction { span, .. } => *span,
            RuntimeError::ImmutableAssignment { span, .. } => *span,
            RuntimeError::IoError { span, .. } => *span,
            RuntimeError::ImportNotFount { span, .. } => *span,
            RuntimeError::IoErrorMassage { span, .. } => *span,
            RuntimeError::ImportParseError { span, .. } => *span,
            _ => Span::default_value(),
        }
    }

    /// The error as a `ParseError` of kind `Runtime`, at the error's span,
    /// with the given file name and source (empty where `None`).
    pub fn to_parse_error(&self, file: Option<String>, source: Option<String>) -> (r: ParseError)
        ensures
            r.kind@ == SKind::Runtime(self@),
            r.span == rerr_span(self@),
            r.file@ == (match file { Some(f) => f@, None => Seq::<char>::empty() }),
            r.source@ == (match source { Some(s) => s@, None => Seq::<char>::empty() }),
    {
        ParseError::new(ParseErrorKind::Runtime(self.dup()), self.span(), file, source)
    }
}

// ==================== TOP-LEVEL PARSER ERROR WRAPPER ====================
/// The kind of a parse (or reported) error.
#[derive(Debug)]
pub enum ParseErrorKind {
    Lexer(LexerError),
    Tokens(TokensError),
    Variable(VariableError),
    ExprError(ExpressionError),
    FunError(FunctionError),
    Block(BlockError),
    Runtime(RuntimeError),
    Custom(String),
}

/// The mathematical value of a `ParseErrorKind`.
pub enum SKind {
    Lexer(LexerError),
    Tokens(STokensError),
    Variable(SVariableError),
    ExprError(SExpressionError),
    FunError(SFunctionError),
    Block(BlockError),
    Runtime(RErr),
    Custom(Seq<char>),
}

impl View for ParseErrorKind {
    type V = SKind;

    open spec fn view(&self) -> SKind {
        match self {
            ParseErrorKind::Lexer(e) => SKind::Lexer(*e),
            ParseErrorKind::Tokens(e) => SKind::Tokens(e@),
            ParseErrorKind::Variable(e) => SKind::Variable(e@),
            ParseErrorKind::ExprError(e) => SKind::ExprError(e@),
            ParseErrorKind::FunError(e) => SKind::FunError(e@),
            ParseErrorKind::Block(e) => SKind::Block(*e),
            ParseErrorKind::Runtime(e) => SKind::Runtime(e@),
            ParseErrorKind::Custom(s) => SKind::Custom(s@),
        }
    }
}

/// An error with where it happened, and the file and source text it happened in.
#[derive(Debug)]
pub struct ParseError {
    pub kind: ParseErrorKind,
    pub span: Span,
    pub file: String,
    pub source: String,
}

/// The mathematical value of a `ParseError`'s kind and span.
pub struct SParseError {
    pub kind: SKind,
    pub span: Span,
}

impl View for ParseError {
    type V = SParseError;

    open spec fn view(&self) -> SParseError {
        SParseError { kind: self.kind@, span: self.span }
    }
}

impl ParseError {
    /// An error of the given kind at the given span; a missing file name or
    /// source is taken as empty.
    pub fn new(kind: ParseErrorKind, span: Span, file: Option<String>, source: Option<String>) -> (r: Self)
        ensures
            r.kind == kind,
            r.span == span,
            r.file@ == (match file { Some(f) => f@, None => Seq::<char>::empty() }),
            r.source@ == (match source { Some(s) => s@, None => Seq::<char>::empty() }),
    {
        let file = match file {
            Some(f) => f,
            None => String::new(),
        };
        let source = match source {
            Some(s) => s,
            None => String::new(),
        };
        ParseError { kind, span, file, source }
    }
}

} // verus!
