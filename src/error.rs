//! Error types: the structural parse error kinds, a report that carries a
//! trail of context messages, and the top-level I/O-or-parse error.

use vstd::prelude::*;
use vstd::string::StringExecFns;

verus! {

#[verifier::external_type_specification]
#[verifier::external_body]
pub struct ExIoError(std::io::Error);

/// What a value can say of itself when a report is rendered.
pub trait ErrorMessage {
    /// The text of the message. Left unspecified unless the impl states it.
    closed spec fn message_spec(&self) -> Seq<char> {
        vstd::pervasive::arbitrary()
    }

    /// The message.
    fn message(&self) -> (r: String)
        ensures
            r@ == self.message_spec(),
    ;
}

/// The kinds of structural failure found while decoding boxes.
#[derive(Clone, Copy, Debug, PartialEq, Eq, Structural)]
pub enum ParseError {
    /// A box's header or layout is malformed (e.g. its size is smaller than
    /// its own header, or larger than the enclosing buffer).
    InvalidBoxLayout,
    /// A field holds a value that breaks a structural rule, or a box body has
    /// bytes left over after decoding.
    InvalidInput,
    /// Fewer bytes are available than a field or collection declares.
    TruncatedBox,
}

/// The text of each parse error kind.
pub open spec fn parse_error_text(e: ParseError) -> Seq<char> {
    match e {
        ParseError::InvalidBoxLayout => "invalid box layout"@,
        ParseError::InvalidInput => "invalid input"@,
        ParseError::TruncatedBox => "truncated box"@,
    }
}

impl ParseError {
    /// The text of this error kind.
    pub fn text(&self) -> (r: &'static str)
        ensures
            r@ == parse_error_text(*self),
    {
        match self {
            ParseError::InvalidBoxLayout => "invalid box layout",
            ParseError::InvalidInput => "invalid input",
            ParseError::TruncatedBox => "truncated box",
        }
    }
}

impl ErrorMessage for ParseError {
    open spec fn message_spec(&self) -> Seq<char> {
        parse_error_text(*self)
    }

    fn message(&self) -> (r: String) {
        String::from_str(self.text())
    }
}


/// The text that marks off one context entry of a rendered report.
pub open spec fn entry_marker() -> Seq<char> {
    seq!['\n', ' ', '-', ' ']
}

/// A report rendered: the terminal error's message, then each context entry
/// on a line of its own, in the order of attachment.
pub open spec fn render_spec(message: Seq<char>, trail: Seq<Seq<char>>) -> Seq<char>
    decreases trail.len(),
{
    if trail.len() == 0 {
        message
    } else {
        render_spec(message, trail.drop_last()) + entry_marker() + trail.last()
    }
}

/// An error together with the trail of context messages attached to it as it
/// travelled outward through the decoders.
pub struct Report<E> {
    error: E,
    /// The trail; allocated on the first attachment.
    stack: Option<Vec<String>>,
}

impl<E> Report<E> {
    /// The terminal error that the report wraps.
    pub closed spec fn terminal(&self) -> E {
        self.error
    }

    /// The context messages, oldest first.
    pub closed spec fn trail(&self) -> Seq<Seq<char>> {
        match self.stack {
            Some(v) => v@.map_values(|s: String| s@),
            None => Seq::empty(),
        }
    }

    /// The trail's storage, empty before the first attachment.
    fn entries(&self) -> (r: Vec<String>)
        ensures
            r@.map_values(|s: String| s@) == self.trail(),
    {
        match &self.stack {
            Some(v) => v.clone(),
            None => {
                let v: Vec<String> = Vec::new();
                assert(v@.map_values(|s: String| s@) =~= Seq::<Seq<char>>::empty());
                v
            },
        }
    }

    /// Wraps an error into a report with an empty trail.
    pub fn new(error: E) -> (r: Self)
        ensures
            r.terminal() == error,
            r.trail() == Seq::<Seq<char>>::empty(),
    {
        Report { error, stack: None }
    }

    /// The underlying error.
    pub fn get_ref(&self) -> (r: &E)
        ensures
            *r == self.terminal(),
    {
        &self.error
    }

    /// Unwraps the report, returning the underlying error.
    pub fn into_inner(self) -> (r: E)
        ensures
            r == self.terminal(),
    {
        self.error
    }

    /// Appends a context message at the tail of the trail.
    pub fn attach_printable(self, message: &str) -> (r: Self)
        ensures
            r.terminal() == self.terminal(),
            r.trail() == self.trail().push(message@),
    {
        let Report { error, stack } = self;
        let mut stack = match stack {
            Some(v) => v,
            None => Vec::new(),
        };
        let ghost before = stack@;
        stack.push(String::from_str(message));
        let r = Report { error, stack: Some(stack) };
        assert(before.map_values(|s: String| s@) =~= self.trail());
        assert(r.trail() =~= self.trail().push(message@));
        r
    }

    /// Appends the context message "while parsing value of type `ty`".
    pub fn while_parsing_type(self, ty: &'static str) -> (r: Self)
        ensures
            r.terminal() == self.terminal(),
            r.trail() == self.trail().push(while_parsing_text(ty@)),
    {
        let m = WhileParsingType::new(ty).message();
        self.attach_printable(m.as_str())
    }

    /// The number of context messages attached so far.
    pub fn trail_len(&self) -> (r: usize)
        ensures
            r == self.trail().len(),
    {
        match &self.stack {
            Some(v) => v.len(),
            None => 0,
        }
    }

    /// Renders the report with `message` standing for the terminal error.
    pub fn render_with(&self, message: &str) -> (r: String)
        ensures
            r@ == render_spec(message@, self.trail()),
    {
        let mut out = String::from_str(message);
        let stack = self.entries();
        let n = stack.len();
        let mut i: usize = 0;
        proof {
            reveal_strlit("\n - ");
            assert(self.trail().take(0) =~= Seq::<Seq<char>>::empty());
        }
        while i < n
            invariant
                n == self.trail().len(),
                stack@.map_values(|s: String| s@) == self.trail(),
                i <= n,
                out@ == render_spec(message@, self.trail().take(i as int)),
            decreases n - i,
        {
            out.append("\n - ");
            out.append(stack[i].as_str());
            proof {
                reveal_strlit("\n - ");
                let t = self.trail().take(i as int + 1);
                assert(t.drop_last() =~= self.trail().take(i as int));
                assert("\n - "@ =~= entry_marker());
            }
            i = i + 1;
        }
        assert(self.trail().take(n as int) =~= self.trail());
        out
    }
}

impl<E: ErrorMessage> Report<E> {
    /// The terminal error's own message.
    pub fn to_string(&self) -> (r: String)
        ensures
            r@ == self.terminal().message_spec(),
    {
        self.error.message()
    }

    /// The full rendering: the terminal error's message followed by every
    /// context message in attachment order.
    pub fn debug_string(&self) -> (r: String)
        ensures
            r@ == render_spec(self.terminal().message_spec(), self.trail()),
    {
        let m = self.error.message();
        self.render_with(m.as_str())
    }
}

impl Report<ParseError> {
    /// The full rendering of a parse report: the error kind's text followed
    /// by every context message in attachment order.
    pub fn render(&self) -> (r: String)
        ensures
            r@ == render_spec(parse_error_text(self.terminal()), self.trail()),
    {
        self.render_with(self.error.text())
    }
}

/// A message noting that a box body had input left over after decoding.
#[derive(Clone, Copy, Debug)]
pub struct ExtraUnparsedInput;

impl ExtraUnparsedInput {
    /// The text of this message.
    pub fn message(&self) -> (r: String)
        ensures
            r@ == "extra unparsed input"@,
    {
        String::from_str("extra unparsed input")
    }
}

/// The message that names the type being parsed.
pub open spec fn while_parsing_text(ty: Seq<char>) -> Seq<char> {
    "while parsing value of type `"@ + ty + "`"@
}

/// A message noting which type was being parsed when an error occurred.
#[derive(Clone, Copy, Debug)]
pub struct WhileParsingType(&'static str);

impl WhileParsingType {
    /// The message for the type named `ty`.
    pub fn new(ty: &'static str) -> (r: Self)
        ensures
            r.ty() == ty@,
    {
        WhileParsingType(ty)
    }

    /// The name of the type described.
    pub closed spec fn ty(&self) -> Seq<char> {
        self.0@
    }

    pub open spec fn message_spec(&self) -> Seq<char> {
        while_parsing_text(self.ty())
    }

    /// The text of this message.
    pub fn message(&self) -> (r: String)
        ensures
            r@ == self.message_spec(),
    {
        let mut s = String::from_str("while parsing value of type `");
        s.append(self.0);
        s.append("`");
        proof {
            reveal_strlit("while parsing value of type `");
            reveal_strlit("`");
        }
        s
    }
}


impl<E> From<E> for Report<E> {
    /// Wraps an error into a report with an empty trail.
    fn from(error: E) -> (r: Self) {
        Report { error, stack: None }
    }
}

impl<E> vstd::std_specs::convert::FromSpecImpl<E> for Report<E> {
    open spec fn obeys_from_spec() -> bool {
        true
    }

    closed spec fn from_spec(v: E) -> Self {
        Report { error: v, stack: None }
    }
}

impl<E> Report<E> {
    /// What wrapping by `from` gives: the error, with an empty trail.
    pub proof fn lemma_from(error: E)
        ensures
            <Self as vstd::std_specs::convert::FromSpec<E>>::from_spec(error).terminal() == error,
            <Self as vstd::std_specs::convert::FromSpec<E>>::from_spec(error).trail()
                == Seq::<Seq<char>>::empty(),
    {
    }
}

/// The error of the top level: either reading the input failed, or the input
/// did not parse. The two never mix.
pub enum Error<E> {
    /// Reading the input failed.
    Io(std::io::Error),
    /// The input could not be parsed; the report says where and why.
    Parse(Report<E>),
}

/// `after` is `before` with the message `m` attached: a parse failure gains
/// it at the tail of its trail, an I/O failure stays as it was.
pub open spec fn error_attached<E>(before: Error<E>, after: Error<E>, m: Seq<char>) -> bool {
    match (before, after) {
        (Error::Io(a), Error::Io(b)) => a == b,
        (Error::Parse(a), Error::Parse(b)) => b.terminal() == a.terminal() && b.trail() == a.trail().push(m),
        _ => false,
    }
}

impl<E> Error<E> {
    /// Whether this is a failure to read the input.
    pub fn is_io(&self) -> (r: bool)
        ensures
            r == (self is Io),
    {
        match self {
            Error::Io(_) => true,
            Error::Parse(_) => false,
        }
    }

    /// Whether this is a failure to parse the input.
    pub fn is_parse(&self) -> (r: bool)
        ensures
            r == (self is Parse),
    {
        match self {
            Error::Io(_) => false,
            Error::Parse(_) => true,
        }
    }

    /// Attaches a context message to a parse failure; an I/O failure is
    /// returned unchanged.
    pub fn attach_printable(self, message: &str) -> (r: Self)
        ensures
            error_attached(self, r, message@),
    {
        match self {
            Error::Io(e) => Error::Io(e),
            Error::Parse(report) => Error::Parse(report.attach_printable(message)),
        }
    }

    /// Attaches "while parsing value of type `ty`" to a parse failure.
    pub fn while_parsing_type(self, ty: &'static str) -> (r: Self)
        ensures
            error_attached(self, r, while_parsing_text(ty@)),
    {
        match self {
            Error::Io(e) => Error::Io(e),
            Error::Parse(report) => Error::Parse(report.while_parsing_type(ty)),
        }
    }
}

/// Context attached to a failure never changes its kind: an I/O failure stays
/// an I/O failure with nothing attached, and a parse failure stays a parse
/// failure that keeps its terminal error.
pub proof fn lemma_failure_kinds_disjoint<E>(before: Error<E>, after: Error<E>, m: Seq<char>)
    requires
        error_attached(before, after, m),
    ensures
        (before is Io) <==> (after is Io),
        (before is Parse) <==> (after is Parse),
        !((after is Io) && (after is Parse)),
        before is Io ==> before == after,
        before is Parse ==> after->Parse_0.terminal() == before->Parse_0.terminal(),
{
}

impl<E> From<std::io::Error> for Error<E> {
    fn from(e: std::io::Error) -> (r: Self) {
        Error::Io(e)
    }
}

impl<E> vstd::std_specs::convert::FromSpecImpl<std::io::Error> for Error<E> {
    open spec fn obeys_from_spec() -> bool {
        true
    }

    open spec fn from_spec(v: std::io::Error) -> Self {
        Error::Io(v)
    }
}

impl<E> From<Report<E>> for Error<E> {
    fn from(r: Report<E>) -> (out: Self) {
        Error::Parse(r)
    }
}

impl<E> vstd::std_specs::convert::FromSpecImpl<Report<E>> for Error<E> {
    open spec fn obeys_from_spec() -> bool {
        true
    }

    open spec fn from_spec(v: Report<E>) -> Self {
        Error::Parse(v)
    }
}

/// Context attachment on results whose failure carries a report.
pub trait ResultExt: Sized {
    /// `after` is `before` with the message `m` attached to its failure, if
    /// any.
    spec fn attached(before: Self, after: Self, m: Seq<char>) -> bool;

    /// Attaches a context message to the failure, if any.
    fn attach_printable(self, printable: &str) -> (r: Self)
        ensures
            Self::attached(self, r, printable@),
    ;

    /// Attaches "while parsing value of type `ty`" to the failure, if any.
    fn while_parsing_type(self, ty: &'static str) -> (r: Self)
        ensures
            Self::attached(self, r, while_parsing_text(ty@)),
    ;
}

impl<T, E> ResultExt for Result<T, Report<E>> {
    open spec fn attached(before: Self, after: Self, m: Seq<char>) -> bool {
        match (before, after) {
            (Ok(a), Ok(b)) => a == b,
            (Err(a), Err(b)) => b.terminal() == a.terminal() && b.trail() == a.trail().push(m),
            _ => false,
        }
    }

    fn attach_printable(self, printable: &str) -> (r: Self) {
        match self {
            Ok(v) => Ok(v),
            Err(e) => Err(e.attach_printable(printable)),
        }
    }

    fn while_parsing_type(self, ty: &'static str) -> (r: Self) {
        match self {
            Ok(v) => Ok(v),
            Err(e) => Err(e.while_parsing_type(ty)),
        }
    }
}

impl<T, E> ResultExt for Result<T, Error<E>> {
    open spec fn attached(before: Self, after: Self, m: Seq<char>) -> bool {
        match (before, after) {
            (Ok(a), Ok(b)) => a == b,
            (Err(a), Err(b)) => error_attached(a, b, m),
            _ => false,
        }
    }

    fn attach_printable(self, printable: &str) -> (r: Self) {
        match self {
            Ok(v) => Ok(v),
            Err(e) => Err(e.attach_printable(printable)),
        }
    }

    fn while_parsing_type(self, ty: &'static str) -> (r: Self) {
        match self {
            Ok(v) => Ok(v),
            Err(e) => Err(e.while_parsing_type(ty)),
        }
    }
}

/// A rendered report begins with the terminal error's message, and each
/// attachment adds exactly one line at the end: the rendering after `k`
/// attachments is a prefix of the rendering after all of them, followed there
/// by the `k`-th message. So all messages appear, in attachment order.
pub proof fn lemma_render_accumulates(message: Seq<char>, trail: Seq<Seq<char>>, k: int)
    requires
        0 <= k <= trail.len(),
    ensures
        render_spec(message, trail).len() >= message.len(),
        render_spec(message, trail).take(message.len() as int) == message,
        render_spec(message, trail.take(k)).len() <= render_spec(message, trail).len(),
        render_spec(message, trail).take(render_spec(message, trail.take(k)).len() as int)
            == render_spec(message, trail.take(k)),
        k < trail.len() ==> render_spec(message, trail.take(k + 1)) == render_spec(
            message,
            trail.take(k),
        ) + entry_marker() + trail[k],
    decreases trail.len(),
{
    if k < trail.len() {
        assert(trail.take(k + 1).drop_last() =~= trail.take(k));
    }
    if trail.len() == 0 {
        assert(trail.take(k) =~= trail);
    } else if k == trail.len() {
        assert(trail.take(k) =~= trail);
        lemma_render_accumulates(message, trail.drop_last(), 0);
        let r0 = render_spec(message, trail.drop_last());
        assert((r0 + entry_marker() + trail.last()).take(message.len() as int) =~= r0.take(
            message.len() as int,
        ));
    } else {
        lemma_render_accumulates(message, trail.drop_last(), k);
        assert(trail.drop_last().take(k) =~= trail.take(k));
        let r0 = render_spec(message, trail.drop_last());
        let rk = render_spec(message, trail.take(k));
        assert((r0 + entry_marker() + trail.last()).take(rk.len() as int) =~= r0.take(
            rk.len() as int,
        ));
        assert((r0 + entry_marker() + trail.last()).take(message.len() as int) =~= r0.take(
            message.len() as int,
        ));
    }
}

} // verus!
