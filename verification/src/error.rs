//! Error types of the SDK and their severity.

use crate::clock::{utc_display, utc_now_micros, utc_text};
use crate::telemetry::{pair_views, set_label, Labels};
use vstd::prelude::*;

verus! {

broadcast use vstd::string::group_string_axioms;

/// Main error type for the SDK.
#[derive(Debug, Clone)]
pub enum SdkError {
    Connection(ConnectionError),
    Parse(ParseError),
    Subscription(SubscriptionError),
    Configuration(String),
    Network(String),
    Authentication(String),
    NotImplemented(String),
}

/// Connection-specific errors.
#[derive(Debug, Clone)]
pub enum ConnectionError {
    EstablishmentFailed(String),
    ConnectionLost(String),
    AuthenticationFailed(String),
    Timeout(String),
}

/// Parsing-specific errors.
#[derive(Debug, Clone)]
pub enum ParseError {
    InvalidJson(String),
    MissingField(String),
    InvalidDataType(String),
    MalformedMessage(String),
}

/// Subscription-specific errors.
#[derive(Debug, Clone)]
pub enum SubscriptionError {
    InvalidChannel(String),
    SubscriptionFailed(String),
    AlreadySubscribed(String),
    NotSubscribed(String),
}

/// Processing-specific errors.
#[derive(Debug, Clone)]
pub enum ProcessingError {
    ProcessingFailed(String),
    CallbackError(String),
}

/// The message of a connection error.
pub open spec fn connection_error_text(e: ConnectionError) -> Seq<char> {
    match e {
        ConnectionError::EstablishmentFailed(m) => "Failed to establish connection: "@ + m@,
        ConnectionError::ConnectionLost(m) => "Connection lost: "@ + m@,
        ConnectionError::AuthenticationFailed(m) => "Authentication failed: "@ + m@,
        ConnectionError::Timeout(m) => "Timeout occurred: "@ + m@,
    }
}

/// The message of a parse error.
pub open spec fn parse_error_text(e: ParseError) -> Seq<char> {
    match e {
        ParseError::InvalidJson(m) => "Invalid JSON: "@ + m@,
        ParseError::MissingField(m) => "Missing field: "@ + m@,
        ParseError::InvalidDataType(m) => "Invalid data type: "@ + m@,
        ParseError::MalformedMessage(m) => "Malformed message: "@ + m@,
    }
}

/// The message of a subscription error.
pub open spec fn subscription_error_text(e: SubscriptionError) -> Seq<char> {
    match e {
        SubscriptionError::InvalidChannel(m) => "Invalid channel: "@ + m@,
        SubscriptionError::SubscriptionFailed(m) => "Subscription failed: "@ + m@,
        SubscriptionError::AlreadySubscribed(m) => "Already subscribed: "@ + m@,
        SubscriptionError::NotSubscribed(m) => "Not subscribed: "@ + m@,
    }
}

/// The message of an SDK error.
pub open spec fn sdk_error_text(e: SdkError) -> Seq<char> {
    match e {
        SdkError::Connection(c) => "Connection error: "@ + connection_error_text(c),
        SdkError::Parse(p) => "Parse error: "@ + parse_error_text(p),
        SdkError::Subscription(s) => "Subscription error: "@ + subscription_error_text(s),
        SdkError::Configuration(m) => "Configuration error: "@ + m@,
        SdkError::Network(m) => "Network error: "@ + m@,
        SdkError::Authentication(m) => "Authentication error: "@ + m@,
        SdkError::NotImplemented(m) => "Not implemented: "@ + m@,
    }
}

/// `prefix` followed by `m`.
fn join2(prefix: &str, m: &str) -> (s: String)
    ensures
        s@ == prefix@ + m@,
{
    let mut s = prefix.to_string();
    s.append(m);
    s
}

impl ConnectionError {
    /// The error message.
    pub fn message(&self) -> (s: String)
        ensures
            s@ == connection_error_text(*self),
    {
        proof {
            reveal_strlit("Failed to establish connection: ");
            reveal_strlit("Connection lost: ");
            reveal_strlit("Authentication failed: ");
            reveal_strlit("Timeout occurred: ");
        }
        match self {
            ConnectionError::EstablishmentFailed(m) => join2(
                "Failed to establish connection: ",
                m.as_str(),
            ),
            ConnectionError::ConnectionLost(m) => join2("Connection lost: ", m.as_str()),
            ConnectionError::AuthenticationFailed(m) => join2("Authentication failed: ", m.as_str()),
            ConnectionError::Timeout(m) => join2("Timeout occurred: ", m.as_str()),
        }
    }
}

impl ParseError {
    /// The error message.
    pub fn message(&self) -> (s: String)
        ensures
            s@ == parse_error_text(*self),
    {
        proof {
            reveal_strlit("Invalid JSON: ");
            reveal_strlit("Missing field: ");
            reveal_strlit("Invalid data type: ");
            reveal_strlit("Malformed message: ");
        }
        match self {
            ParseError::InvalidJson(m) => join2("Invalid JSON: ", m.as_str()),
            ParseError::MissingField(m) => join2("Missing field: ", m.as_str()),
            ParseError::InvalidDataType(m) => join2("Invalid data type: ", m.as_str()),
            ParseError::MalformedMessage(m) => join2("Malformed message: ", m.as_str()),
        }
    }
}

impl SubscriptionError {
    /// The error message.
    pub fn message(&self) -> (s: String)
        ensures
            s@ == subscription_error_text(*self),
    {
        proof {
            reveal_strlit("Invalid channel: ");
            reveal_strlit("Subscription failed: ");
            reveal_strlit("Already subscribed: ");
            reveal_strlit("Not subscribed: ");
        }
        match self {
            SubscriptionError::InvalidChannel(m) => join2("Invalid channel: ", m.as_str()),
            SubscriptionError::SubscriptionFailed(m) => join2("Subscription failed: ", m.as_str()),
            SubscriptionError::AlreadySubscribed(m) => join2("Already subscribed: ", m.as_str()),
            SubscriptionError::NotSubscribed(m) => join2("Not subscribed: ", m.as_str()),
        }
    }
}

impl SdkError {
    /// The error message.
    pub fn message(&self) -> (s: String)
        ensures
            s@ == sdk_error_text(*self),
    {
        proof {
            reveal_strlit("Connection error: ");
            reveal_strlit("Parse error: ");
            reveal_strlit("Subscription error: ");
            reveal_strlit("Configuration error: ");
            reveal_strlit("Network error: ");
            reveal_strlit("Authentication error: ");
            reveal_strlit("Not implemented: ");
        }
        match self {
            SdkError::Connection(c) => join2("Connection error: ", c.message().as_str()),
            SdkError::Parse(p) => join2("Parse error: ", p.message().as_str()),
            SdkError::Subscription(e) => join2("Subscription error: ", e.message().as_str()),
            SdkError::Configuration(m) => join2("Configuration error: ", m.as_str()),
            SdkError::Network(m) => join2("Network error: ", m.as_str()),
            SdkError::Authentication(m) => join2("Authentication error: ", m.as_str()),
            SdkError::NotImplemented(m) => join2("Not implemented: ", m.as_str()),
        }
    }
}

/// Error severity levels.
#[derive(Debug, Clone, Copy, PartialEq, Eq, Structural)]
pub enum ErrorSeverity {
    /// Warnings, non-critical issues
    Low,
    /// Recoverable errors
    Medium,
    /// Critical errors that affect functionality
    High,
    /// System-level failures
    Critical,
}

/// The severity of an error.
pub open spec fn severity_of(e: SdkError) -> ErrorSeverity {
    match e {
        SdkError::Configuration(_) => ErrorSeverity::High,
        SdkError::Authentication(_) => ErrorSeverity::High,
        SdkError::Connection(c) => match c {
            ConnectionError::AuthenticationFailed(_) => ErrorSeverity::Critical,
            ConnectionError::Timeout(_) => ErrorSeverity::Medium,
            _ => ErrorSeverity::High,
        },
        SdkError::Parse(_) => ErrorSeverity::Low,
        SdkError::Subscription(_) => ErrorSeverity::Medium,
        SdkError::Network(_) => ErrorSeverity::Medium,
        SdkError::NotImplemented(_) => ErrorSeverity::Low,
    }
}

impl ErrorSeverity {
    /// The severity of an error: authentication failures while connecting are
    /// critical, timeouts and network or subscription troubles medium, parse
    /// errors and missing features low, the rest high.
    pub fn from_error(error: &SdkError) -> (s: Self)
        ensures
            s == severity_of(*error),
    {
        match error {
            SdkError::Configuration(_) => ErrorSeverity::High,
            SdkError::Authentication(_) => ErrorSeverity::High,
            SdkError::Connection(conn_err) => match conn_err {
                ConnectionError::AuthenticationFailed(_) => ErrorSeverity::Critical,
                ConnectionError::Timeout(_) => ErrorSeverity::Medium,
                _ => ErrorSeverity::High,
            },
            SdkError::Parse(_) => ErrorSeverity::Low,
            SdkError::Subscription(_) => ErrorSeverity::Medium,
            SdkError::Network(_) => ErrorSeverity::Medium,
            SdkError::NotImplemented(_) => ErrorSeverity::Low,
        }
    }
}

/// Where and when an error happened, with details for debugging.
#[derive(Debug)]
pub struct ErrorContext {
    /// Microseconds since the Unix epoch (UTC)
    pub timestamp: i64,
    pub operation: String,
    pub details: Labels,
    pub stack_trace: Option<String>,
}

impl ErrorContext {
    /// The context of an operation, taken now, with no detail.
    pub fn new(operation: &str) -> (c: Self)
        ensures
            c.operation@ == operation@,
            c.details.wf(),
            c.details.pairs_view().len() == 0,
            c.stack_trace is None,
    {
        ErrorContext {
            timestamp: utc_now_micros(),
            operation: operation.to_string(),
            details: Labels::new(),
            stack_trace: None,
        }
    }

    /// The context with `key` set to `value` among its details.
    pub fn with_detail(self, key: &str, value: &str) -> (c: Self)
        requires
            self.details.wf(),
        ensures
            c.details.wf(),
            c.details.pairs_view() == set_label(self.details.pairs_view(), key@, value@),
            c.timestamp == self.timestamp,
            c.operation == self.operation,
            c.stack_trace == self.stack_trace,
    {
        let mut c = self;
        c.details.insert(key, value);
        c
    }

    /// The context with a stack trace.
    pub fn with_stack_trace(self, trace: String) -> (c: Self)
        ensures
            c.stack_trace == Some(trace),
            c.timestamp == self.timestamp,
            c.operation == self.operation,
            c.details == self.details,
    {
        let mut c = self;
        c.stack_trace = Some(trace);
        c
    }
}

/// Details as `{"key": "value", ...}`, in the order first set.
pub open spec fn details_text(ps: Seq<(Seq<char>, Seq<char>)>) -> Seq<char> {
    "{"@ + details_joined(ps) + "}"@
}

/// Detail pairs as `"key": "value"`, joined with `, `.
pub open spec fn details_joined(ps: Seq<(Seq<char>, Seq<char>)>) -> Seq<char>
    decreases ps.len(),
{
    if ps.len() == 0 {
        Seq::empty()
    } else if ps.len() == 1 {
        detail_text(ps[0])
    } else {
        details_joined(ps.drop_last()) + ", "@ + detail_text(ps.last())
    }
}

/// One detail as `"key": "value"`.
pub open spec fn detail_text(p: (Seq<char>, Seq<char>)) -> Seq<char> {
    "\""@ + p.0 + "\": \""@ + p.1 + "\""@
}

/// The text of a context: `[time] Operation: op`, then ` | Details: {...}`
/// when there are details and ` | Stack: trace` when there is a trace.
pub open spec fn context_text(c: ErrorContext) -> Seq<char> {
    "["@ + utc_text(c.timestamp) + "] Operation: "@ + c.operation@ + (if c.details.pairs_view().len() == 0 {
        Seq::empty()
    } else {
        " | Details: "@ + details_text(c.details.pairs_view())
    }) + match c.stack_trace {
        Some(t) => " | Stack: "@ + t@,
        None => Seq::empty(),
    }
}

impl ErrorContext {
    /// `[time] Operation: op | Details: {"k": "v"} | Stack: trace`, the
    /// details and the trace only where present. Keys and values are shown
    /// as they are, without escapes.
    pub fn text(&self) -> (s: String)
        ensures
            s@ == context_text(*self),
    {
        proof {
            reveal_strlit(" | Details: {");
            reveal_strlit(" | Details: ");
            reveal_strlit("{");
            reveal_strlit("}");
        }
        let mut s = "[".to_string();
        s.append(utc_display(self.timestamp).as_str());
        s.append("] Operation: ");
        s.append(self.operation.as_str());
        let ghost head = s@;
        let pairs = self.details.pairs();
        let ghost ps = self.details.pairs_view();
        if pairs.len() > 0 {
            s.append(" | Details: {");
            let ghost start = s@;
            let mut i: usize = 0;
            while i < pairs.len()
                invariant
                    i <= pairs@.len(),
                    pairs@.len() > 0,
                    pair_views(pairs@) == ps,
                    s@ == start + details_joined(ps.subrange(0, i as int)),
                decreases pairs@.len() - i,
            {
                proof {
                    assert(ps.subrange(0, i + 1).drop_last() =~= ps.subrange(0, i as int));
                    assert(ps[i as int] == (pairs@[i as int].0@, pairs@[i as int].1@));
                }
                if i > 0 {
                    s.append(", ");
                }
                s.append("\"");
                s.append(pairs[i].0.as_str());
                s.append("\": \"");
                s.append(pairs[i].1.as_str());
                s.append("\"");
                i = i + 1;
            }
            s.append("}");
            proof {
                assert(ps.subrange(0, i as int) =~= ps);
                assert(s@ =~= head + (" | Details: "@ + details_text(ps)));
            }
        } else {
            assert(s@ =~= head + Seq::<char>::empty());
        }
        let ghost mid = s@;
        assert(mid =~= head + (if ps.len() == 0 {
            Seq::<char>::empty()
        } else {
            " | Details: "@ + details_text(ps)
        }));
        match &self.stack_trace {
            Some(t) => {
                s.append(" | Stack: ");
                s.append(t.as_str());
            },
            None => {},
        }
        assert(s@ =~= mid + match self.stack_trace {
            Some(t) => " | Stack: "@ + t@,
            None => Seq::<char>::empty(),
        });
        assert(head =~= "["@ + utc_text(self.timestamp) + "] Operation: "@ + self.operation@);
        s
    }
}

impl ContextualError {
    /// The error's message, then ` | Context: ` and the context's text.
    pub fn text(&self) -> (s: String)
        ensures
            s@ == sdk_error_text(self.error) + " | Context: "@ + context_text(self.context),
    {
        let mut s = self.error.message();
        s.append(" | Context: ");
        s.append(self.context.text().as_str());
        s
    }
}

/// An error with its context.
#[derive(Debug)]
pub struct ContextualError {
    pub error: SdkError,
    pub context: ErrorContext,
}

impl ContextualError {
    /// An error in a context.
    pub fn new(error: SdkError, context: ErrorContext) -> (e: Self)
        ensures
            e.error == error,
            e.context == context,
    {
        ContextualError { error, context }
    }
}

/// The heading under which an error of a severity is reported.
pub open spec fn report_heading(s: ErrorSeverity) -> Seq<char> {
    match s {
        ErrorSeverity::Critical => "CRITICAL ERROR"@,
        ErrorSeverity::High => "HIGH SEVERITY"@,
        ErrorSeverity::Medium => "MEDIUM SEVERITY"@,
        ErrorSeverity::Low => "LOW SEVERITY"@,
    }
}

/// The short heading under which an error with context is reported.
pub open spec fn contextual_heading(s: ErrorSeverity) -> Seq<char> {
    match s {
        ErrorSeverity::Critical => "CRITICAL"@,
        ErrorSeverity::High => "HIGH"@,
        ErrorSeverity::Medium => "MEDIUM"@,
        ErrorSeverity::Low => "LOW"@,
    }
}

/// Decides how errors are reported: under which heading, and whether as an
/// error (critical and high), a warning (medium) or debug output (low).
pub struct ErrorReporter;

impl ErrorReporter {
    /// The heading of an error's report, by its severity.
    pub fn heading(error: &SdkError) -> (h: &'static str)
        ensures
            h@ == report_heading(severity_of(*error)),
    {
        match ErrorSeverity::from_error(error) {
            ErrorSeverity::Critical => "CRITICAL ERROR",
            ErrorSeverity::High => "HIGH SEVERITY",
            ErrorSeverity::Medium => "MEDIUM SEVERITY",
            ErrorSeverity::Low => "LOW SEVERITY",
        }
    }

    /// The heading of the report of an error with context, by its severity.
    pub fn contextual_heading(error: &ContextualError) -> (h: &'static str)
        ensures
            h@ == contextual_heading(severity_of(error.error)),
    {
        match ErrorSeverity::from_error(&error.error) {
            ErrorSeverity::Critical => "CRITICAL",
            ErrorSeverity::High => "HIGH",
            ErrorSeverity::Medium => "MEDIUM",
            ErrorSeverity::Low => "LOW",
        }
    }
}

} // verus!
