//! Errors raised while constructing or parsing rule model values, and source diagnostics.
use vstd::prelude::*;

verus! {

/// A structured error produced while constructing or parsing rule model values.
///
/// The human-readable text is [`RuleModelError::message`]; the variant and `context` are
/// the stable parts of the diagnostic.
#[derive(Debug)]
pub enum RuleModelError {
    /// A required value was present syntactically but contained no content.
    EmptyInput { context: &'static str, message: String },
    /// A required argument or paired option was omitted.
    MissingArgument { context: &'static str, message: String },
    /// Input could not be tokenized or interpreted according to its local grammar.
    InvalidSyntax { context: &'static str, message: String },
    /// Input had the correct shape but an invalid value.
    InvalidInput { context: &'static str, message: String },
    /// Syntactically valid input requested a feature outside the supported language.
    UnsupportedInput { context: &'static str, message: String },
    /// Individually valid values violated a cross-field invariant.
    ConstraintViolation { context: &'static str, message: String },
    /// Input exceeded a documented size or complexity bound.
    LimitExceeded { context: &'static str, message: String },
    /// A numeric token could not be parsed as the required integer type.
    InvalidInteger { context: &'static str, input: String, message: String },
    /// A template or template transform was malformed or failed validation.
    InvalidTemplate { context: &'static str, message: String },
    /// A Rust `regex` pattern failed compilation; the compiler's error is kept as the source.
    InvalidRegex { context: &'static str, source: Box<regex::Error> },
    /// A matcher pattern was rejected by both the linear and the backtracking regex engines.
    InvalidRegexMatcher { linear: Box<regex::Error>, fancy: Box<fancy_regex::Error> },
    /// An exact-URL matcher failed strict URL validation.
    InvalidExactUrlMatcher { source: Box<RuleModelError> },
}

/// The category of a [`RuleModelError`], without its payload.
#[derive(Clone, Copy, Debug, PartialEq, Eq, Structural)]
pub enum ModelErrorKind {
    EmptyInput,
    MissingArgument,
    InvalidSyntax,
    InvalidInput,
    UnsupportedInput,
    ConstraintViolation,
    LimitExceeded,
    InvalidInteger,
    InvalidTemplate,
    InvalidRegex,
    InvalidRegexMatcher,
    InvalidExactUrlMatcher,
}

impl RuleModelError {
    /// The category of this error.
    pub open spec fn kind(&self) -> ModelErrorKind {
        match self {
            RuleModelError::EmptyInput { .. } => ModelErrorKind::EmptyInput,
            RuleModelError::MissingArgument { .. } => ModelErrorKind::MissingArgument,
            RuleModelError::InvalidSyntax { .. } => ModelErrorKind::InvalidSyntax,
            RuleModelError::InvalidInput { .. } => ModelErrorKind::InvalidInput,
            RuleModelError::UnsupportedInput { .. } => ModelErrorKind::UnsupportedInput,
            RuleModelError::ConstraintViolation { .. } => ModelErrorKind::ConstraintViolation,
            RuleModelError::LimitExceeded { .. } => ModelErrorKind::LimitExceeded,
            RuleModelError::InvalidInteger { .. } => ModelErrorKind::InvalidInteger,
            RuleModelError::InvalidTemplate { .. } => ModelErrorKind::InvalidTemplate,
            RuleModelError::InvalidRegex { .. } => ModelErrorKind::InvalidRegex,
            RuleModelError::InvalidRegexMatcher { .. } => ModelErrorKind::InvalidRegexMatcher,
            RuleModelError::InvalidExactUrlMatcher { .. } => ModelErrorKind::InvalidExactUrlMatcher,
        }
    }

    /// The model component that rejected the input.
    pub open spec fn context_spec(&self) -> &'static str {
        match self {
            RuleModelError::EmptyInput { context, .. } => *context,
            RuleModelError::MissingArgument { context, .. } => *context,
            RuleModelError::InvalidSyntax { context, .. } => *context,
            RuleModelError::InvalidInput { context, .. } => *context,
            RuleModelError::UnsupportedInput { context, .. } => *context,
            RuleModelError::ConstraintViolation { context, .. } => *context,
            RuleModelError::LimitExceeded { context, .. } => *context,
            RuleModelError::InvalidInteger { context, .. } => *context,
            RuleModelError::InvalidTemplate { context, .. } => *context,
            RuleModelError::InvalidRegex { context, .. } => *context,
            RuleModelError::InvalidRegexMatcher { .. } => "regex matcher",
            RuleModelError::InvalidExactUrlMatcher { .. } => "exact matcher",
        }
    }

    /// The human-facing text of this error; for regex and exact-URL matcher errors, a summary
    /// whose detail is in the errors they keep as their sources.
    pub open spec fn message_spec(&self) -> Seq<char> {
        match self {
            RuleModelError::EmptyInput { message, .. } => message@,
            RuleModelError::MissingArgument { message, .. } => message@,
            RuleModelError::InvalidSyntax { message, .. } => message@,
            RuleModelError::InvalidInput { message, .. } => message@,
            RuleModelError::UnsupportedInput { message, .. } => message@,
            RuleModelError::ConstraintViolation { message, .. } => message@,
            RuleModelError::LimitExceeded { message, .. } => message@,
            RuleModelError::InvalidInteger { message, .. } => message@,
            RuleModelError::InvalidTemplate { message, .. } => message@,
            RuleModelError::InvalidRegex { context, .. } => context@,
            RuleModelError::InvalidRegexMatcher { .. } => "invalid regex matcher"@,
            RuleModelError::InvalidExactUrlMatcher { .. } => "invalid exact URL matcher"@,
        }
    }

    /// True when this error has the given category and context.
    pub open spec fn is_error(&self, kind: ModelErrorKind, context: &'static str) -> bool {
        self.kind() == kind && self.context_spec() == context
    }

    /// Returns the model component that rejected the input.
    pub fn context(&self) -> (r: &'static str)
        ensures
            r == self.context_spec(),
    {
        match self {
            RuleModelError::EmptyInput { context, .. } => context,
            RuleModelError::MissingArgument { context, .. } => context,
            RuleModelError::InvalidSyntax { context, .. } => context,
            RuleModelError::InvalidInput { context, .. } => context,
            RuleModelError::UnsupportedInput { context, .. } => context,
            RuleModelError::ConstraintViolation { context, .. } => context,
            RuleModelError::LimitExceeded { context, .. } => context,
            RuleModelError::InvalidInteger { context, .. } => context,
            RuleModelError::InvalidTemplate { context, .. } => context,
            RuleModelError::InvalidRegex { context, .. } => context,
            RuleModelError::InvalidRegexMatcher { .. } => "regex matcher",
            RuleModelError::InvalidExactUrlMatcher { .. } => "exact matcher",
        }
    }

    /// Returns the human-facing text of this error.
    pub fn message(&self) -> (r: &str)
        ensures
            r@ == self.message_spec(),
    {
        match self {
            RuleModelError::EmptyInput { message, .. } => message.as_str(),
            RuleModelError::MissingArgument { message, .. } => message.as_str(),
            RuleModelError::InvalidSyntax { message, .. } => message.as_str(),
            RuleModelError::InvalidInput { message, .. } => message.as_str(),
            RuleModelError::UnsupportedInput { message, .. } => message.as_str(),
            RuleModelError::ConstraintViolation { message, .. } => message.as_str(),
            RuleModelError::LimitExceeded { message, .. } => message.as_str(),
            RuleModelError::InvalidInteger { message, .. } => message.as_str(),
            RuleModelError::InvalidTemplate { message, .. } => message.as_str(),
            RuleModelError::InvalidRegex { context, .. } => context,
            RuleModelError::InvalidRegexMatcher { .. } => "invalid regex matcher",
            RuleModelError::InvalidExactUrlMatcher { .. } => "invalid exact URL matcher",
        }
    }
}

/// Builds an error of the given category.
pub fn model_error(kind: ModelErrorKind, context: &'static str, message: String) -> (r:
    RuleModelError)
    requires
        kind != ModelErrorKind::InvalidInteger,
        kind != ModelErrorKind::InvalidRegex,
        kind != ModelErrorKind::InvalidRegexMatcher,
        kind != ModelErrorKind::InvalidExactUrlMatcher,
    ensures
        r.kind() == kind,
        r.context_spec() == context,
        r.message_spec() == message@,
{
    match kind {
        ModelErrorKind::EmptyInput => RuleModelError::EmptyInput { context, message },
        ModelErrorKind::MissingArgument => RuleModelError::MissingArgument { context, message },
        ModelErrorKind::InvalidSyntax => RuleModelError::InvalidSyntax { context, message },
        ModelErrorKind::InvalidInput => RuleModelError::InvalidInput { context, message },
        ModelErrorKind::UnsupportedInput => RuleModelError::UnsupportedInput { context, message },
        ModelErrorKind::ConstraintViolation => RuleModelError::ConstraintViolation {
            context,
            message,
        },
        ModelErrorKind::LimitExceeded => RuleModelError::LimitExceeded { context, message },
        ModelErrorKind::InvalidTemplate => RuleModelError::InvalidTemplate { context, message },
        _ => RuleModelError::InvalidTemplate { context, message },
    }
}

/// Stable machine-readable category for a rule-source diagnostic.
#[derive(Clone, Copy, Debug, PartialEq, Eq, Structural)]
pub enum RuleErrorCode {
    /// Tokenization or overall rule-shape failure.
    Syntax,
    /// Invalid URL matcher or matcher pattern.
    Matcher,
    /// Unknown or malformed action.
    Action,
    /// Unknown or malformed `when` condition.
    Condition,
    /// Unknown or malformed property target, such as a typed deletion path.
    Property,
}

impl RuleErrorCode {
    /// The stable lowercase code.
    pub open spec fn code_text(self) -> Seq<char> {
        match self {
            RuleErrorCode::Syntax => "syntax"@,
            RuleErrorCode::Matcher => "matcher"@,
            RuleErrorCode::Action => "action"@,
            RuleErrorCode::Condition => "condition"@,
            RuleErrorCode::Property => "property"@,
        }
    }

    /// Returns the stable lowercase code used by command-line and control contracts.
    pub fn as_str(self) -> (r: &'static str)
        ensures
            r@ == self.code_text(),
    {
        match self {
            RuleErrorCode::Syntax => "syntax",
            RuleErrorCode::Matcher => "matcher",
            RuleErrorCode::Action => "action",
            RuleErrorCode::Condition => "condition",
            RuleErrorCode::Property => "property",
        }
    }
}

/// A source-located rule diagnostic.
#[derive(Clone, Debug, PartialEq, Eq)]
pub struct RuleError {
    /// Stable diagnostic category; consumers must not infer it from `message`.
    pub code: RuleErrorCode,
    /// Caller-provided rules group containing the error.
    pub group: String,
    /// One-based line number within the group.
    pub line: usize,
    /// Human-facing detail whose wording may evolve.
    pub message: String,
}

} // verus!
