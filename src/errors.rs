//! Errors with the place they arose and the places they passed through.
use vstd::prelude::*;

verus! {

/// Where an error arose or was passed on.
#[derive(Debug, Clone)]
pub struct DCtx(String);

impl DCtx {
    pub fn new(inner: String) -> (r: Self)
        ensures
            r@ == inner@,
    {
        Self(inner)
    }

    pub fn as_str(&self) -> (r: &str)
        ensures
            r@ == self@,
    {
        self.0.as_str()
    }
}

impl View for DCtx {
    type V = Seq<char>;

    closed spec fn view(&self) -> Seq<char> {
        self.0@
    }
}

/// What went wrong. The second text of the last four kinds is the message of the
/// underlying failure.
#[derive(Debug, Clone)]
pub enum DErrorType {
    /// Generic error when nothing else is applicable
    Error(String),
    GrubParse(String),
    Io(String, String),
    Sqlx(String, String),
    Zbus(String, String),
    Serde(String, String),
}

/// The text shown to a client for an error of kind `e`.
pub open spec fn error_text(e: DErrorType) -> Seq<char> {
    match e {
        DErrorType::Error(msg) => "Error: "@ + msg@,
        DErrorType::GrubParse(msg) => "Internal Parse: Failed to parse grub config: "@ + msg@,
        DErrorType::Io(msg, err) => "Internal IO error: "@ + msg@ + " ("@ + err@ + ")"@,
        DErrorType::Sqlx(msg, err) => "Interal database error: "@ + msg@ + " ("@ + err@ + ")"@,
        DErrorType::Zbus(msg, err) => "Internal zbus error: "@ + msg@ + " ("@ + err@ + ")"@,
        DErrorType::Serde(msg, err) => "Json handling error: "@ + msg@ + " ("@ + err@ + ")"@,
    }
}

fn with_cause(prefix: &str, msg: &String, err: &String) -> (r: String)
    ensures
        r@ == prefix@ + msg@ + " ("@ + err@ + ")"@,
{
    let mut r = String::from_str(prefix);
    r.append(msg.as_str());
    r.append(" (");
    r.append(err.as_str());
    r.append(")");
    r
}

impl DErrorType {
    pub fn as_string(&self) -> (r: String)
        ensures
            r@ == error_text(*self),
    {
        match self {
            DErrorType::Error(msg) => {
                let mut r = String::from_str("Error: ");
                r.append(msg.as_str());
                r
            },
            DErrorType::GrubParse(msg) => {
                let mut r = String::from_str("Internal Parse: Failed to parse grub config: ");
                r.append(msg.as_str());
                r
            },
            DErrorType::Io(msg, err) => with_cause("Internal IO error: ", msg, err),
            DErrorType::Sqlx(msg, err) => with_cause("Interal database error: ", msg, err),
            DErrorType::Zbus(msg, err) => with_cause("Internal zbus error: ", msg, err),
            DErrorType::Serde(msg, err) => with_cause("Json handling error: ", msg, err),
        }
    }
}

#[derive(Debug, Clone)]
pub struct DError {
    /// Origin where error happened
    ctx: DCtx,
    /// Additional places and messages where error was propagated, excluding the origin
    trace: Vec<(String, DCtx)>,
    error: DErrorType,
}

impl DError {
    pub fn new(ctx: DCtx, error: DErrorType) -> (r: Self)
        ensures
            r.origin()@ == ctx@,
            r.kind() == error,
            r.trace_len() == 0,
    {
        Self { ctx, error, trace: Vec::new() }
    }

    pub closed spec fn origin(&self) -> DCtx {
        self.ctx
    }

    pub closed spec fn kind(&self) -> DErrorType {
        self.error
    }

    pub closed spec fn trace_len(&self) -> nat {
        self.trace@.len()
    }

    /// The message and place of the `i`-th step the error was passed through.
    pub closed spec fn trace_at(&self, i: int) -> (Seq<char>, Seq<char>) {
        (self.trace@[i].0@, self.trace@[i].1@)
    }

    /// The error with one more step recorded: `message`, at `ctx`.
    pub fn with_trace(self, ctx: DCtx, message: String) -> (r: Self)
        ensures
            r.origin() == self.origin(),
            r.kind() == self.kind(),
            r.trace_len() == self.trace_len() + 1,
            forall|i: int| 0 <= i < self.trace_len() ==> r.trace_at(i) == self.trace_at(i),
            r.trace_at(self.trace_len() as int) == (message@, ctx@),
    {
        let mut s = self;
        s.trace.push((message, ctx));
        s
    }

    pub fn grub_parse_error(ctx: DCtx, message: String) -> (r: Self)
        ensures
            r.origin()@ == ctx@,
            r.kind() is GrubParse,
            r.kind()->GrubParse_0@ == message@,
            r.trace_len() == 0,
    {
        Self::new(ctx, DErrorType::GrubParse(message))
    }

    /// An error of the generic kind, with the given message.
    pub fn generic(ctx: DCtx, message: String) -> (r: Self)
        ensures
            r.origin()@ == ctx@,
            r.kind() is Error,
            r.kind()->Error_0@ == message@,
            r.trace_len() == 0,
    {
        Self::new(ctx, DErrorType::Error(message))
    }

    pub fn error(&self) -> (r: &DErrorType)
        ensures
            *r == self.kind(),
    {
        &self.error
    }

    pub fn context(&self) -> (r: &DCtx)
        ensures
            *r == self.origin(),
    {
        &self.ctx
    }
}

pub type DResult<T> = core::result::Result<T, DError>;

} // verus!
