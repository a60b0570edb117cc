use crate::backtrace::{lemma_empty_text, parse_backtrace, parse_backtrace_spec};
use crate::config::Config;
use crate::text::{first_word, first_word_of, lemma_leading_word, lemma_trim_start, no_white};
use anyhow::Error as ChainedError;
use vstd::prelude::*;

verus! {

/// A flat mapping from names to values, kept in the order in which it was written.
pub type StringMap = Vec<(String, String)>;

pub open spec fn opt_view(o: Option<String>) -> Option<Seq<char>> {
    match o {
        Some(s) => Some(s@),
        None => None,
    }
}

pub open spec fn pairs_view(v: Seq<(String, String)>) -> Seq<(Seq<char>, Seq<char>)> {
    v.map_values(|p: (String, String)| (p.0@, p.1@))
}

pub open spec fn map_view(o: Option<StringMap>) -> Option<Seq<(Seq<char>, Seq<char>)>> {
    match o {
        Some(m) => Some(pairs_view(m@)),
        None => None,
    }
}

/// One frame of a call stack: where it stands in the source, each part optional.
pub struct BacktraceInfo {
    pub file: Option<String>,
    pub function: Option<String>,
    pub line: Option<usize>,
    pub column: Option<usize>,
    pub code: Option<StringMap>,
}

/// The mathematical value of a frame.
pub struct FrameView {
    pub file: Option<Seq<char>>,
    pub function: Option<Seq<char>>,
    pub line: Option<usize>,
    pub column: Option<usize>,
    pub code: Option<Seq<(Seq<char>, Seq<char>)>>,
}

impl View for BacktraceInfo {
    type V = FrameView;

    open spec fn view(&self) -> FrameView {
        FrameView {
            file: opt_view(self.file),
            function: opt_view(self.function),
            line: self.line,
            column: self.column,
            code: map_view(self.code),
        }
    }
}

pub open spec fn frame_is_empty(f: FrameView) -> bool {
    f.file is None && f.function is None && f.line is None && f.column is None && f.code is None
}

pub open spec fn frames_view(v: Seq<BacktraceInfo>) -> Seq<FrameView> {
    v.map_values(|f: BacktraceInfo| f@)
}

impl BacktraceInfo {
    /// A frame that has no part set.
    pub fn new() -> (r: BacktraceInfo)
        ensures
            frame_is_empty(r@),
    {
        BacktraceInfo { file: None, function: None, line: None, column: None, code: None }
    }

    /// Whether no part of the frame is set.
    pub fn is_empty(&self) -> (r: bool)
        ensures
            r == frame_is_empty(self@),
    {
        self.file.is_none() && self.function.is_none() && self.line.is_none()
            && self.column.is_none() && self.code.is_none()
    }
}

/// One error of a notice: its kind, its message, and the call stack if one was
/// captured.
pub struct ErrorInfo {
    pub type_: String,
    pub message: String,
    pub backtrace: Option<Vec<BacktraceInfo>>,
}

pub open spec fn trace_view(o: Option<Vec<BacktraceInfo>>) -> Option<Seq<FrameView>> {
    match o {
        Some(v) => Some(frames_view(v@)),
        None => None,
    }
}

/// What classifying an error yields: the first word of `kind_text` as the kind,
/// `message`, and the frames of `trace` where one is given.
pub open spec fn classified(
    r: ErrorInfo,
    kind_text: Seq<char>,
    message: Seq<char>,
    trace: Option<Seq<char>>,
) -> bool {
        &&& first_word(kind_text) == Some(r.type_@)
        &&& r.message@ == message
        &&& trace_view(r.backtrace) == match trace {
            Some(t) => Some(parse_backtrace_spec(t)),
            None => None,
        }
}

/// An error chain with an empty call stack is classified with an empty list of
/// frames, present all the same.
pub proof fn lemma_empty_trace_present(r: ErrorInfo, kind_text: Seq<char>, message: Seq<char>)
    requires
        classified(r, kind_text, message, Some(Seq::empty())),
    ensures
        r.backtrace matches Some(v) && v@.len() == 0,
{
    lemma_empty_text();
    match r.backtrace {
        Some(v) => {
            assert(frames_view(v@).len() == v@.len());
        },
        None => {},
    }
}

/// A simple error, classified without a call stack, has none.
pub proof fn lemma_simple_has_no_trace(r: ErrorInfo, kind_text: Seq<char>, message: Seq<char>)
    requires
        classified(r, kind_text, message, None),
    ensures
        r.backtrace is None,
{
}

/// Every severity, or its absence, is written as one of nine lowercase tokens;
/// its absence as `invalid`.
pub proof fn lemma_severity_tokens(s: Option<Severity>)
    ensures
        severity_tokens().contains(severity_token(s)),
        s is None ==> severity_token(s) == "invalid"@,
{
    let ts = severity_tokens();
    match s {
        Some(Severity::DEBUG) => assert(ts[0] == severity_token(s)),
        Some(Severity::INFO) => assert(ts[1] == severity_token(s)),
        Some(Severity::NOTICE) => assert(ts[2] == severity_token(s)),
        Some(Severity::WARNING) => assert(ts[3] == severity_token(s)),
        Some(Severity::ERROR) => assert(ts[4] == severity_token(s)),
        Some(Severity::CRITICAL) => assert(ts[5] == severity_token(s)),
        Some(Severity::ALERT) => assert(ts[6] == severity_token(s)),
        Some(Severity::EMERGENCY) => assert(ts[7] == severity_token(s)),
        _ => assert(ts[8] == severity_token(s)),
    }
}

/// Relies on the `Debug` impl of the error: its most verbose rendering.
#[verifier::external_body]
fn debug_text<E: std::fmt::Debug + ?Sized>(error: &E) -> (r: String) {
    format!("{:?}", error)
}

/// Relies on the `Display` impl of the error: its message.
#[verifier::external_body]
fn display_text<E: std::fmt::Display + ?Sized>(error: &E) -> (r: String) {
    format!("{}", error)
}

#[verifier::external_type_specification]
#[verifier::external_body]
pub struct ExChainedError(ChainedError);

/// Relies on anyhow::Error::root_cause: the innermost error of the chain, in its
/// `Debug` rendering.
#[verifier::external_body]
fn root_cause_text(error: &ChainedError) -> (r: String) {
    format!("{:?}", error.root_cause())
}

/// Relies on anyhow::Error::backtrace: the call stack captured with the error,
/// rendered as text.
#[verifier::external_body]
fn backtrace_text(error: &ChainedError) -> (r: String) {
    format!("{}", error.backtrace())
}

impl ErrorInfo {
    /// Classifies an error from its kind text, its message and its captured call
    /// stack, if any. Without a word in `kind_text` there is no kind to report.
    pub fn classify(kind_text: &str, message: String, trace: Option<&str>) -> (r: Option<
        ErrorInfo,
    >)
        ensures
            r is None <==> first_word(kind_text@) is None,
            r matches Some(e) ==> classified(
                e,
                kind_text@,
                message@,
                match trace {
                    Some(t) => Some(t@),
                    None => None,
                },
            ),
            r matches Some(e) ==> e.type_@.len() > 0 && no_white(e.type_@),
    {
        let type_ = match first_word_of(kind_text) {
            Some(w) => w,
            None => return None,
        };
        proof {
            lemma_trim_start(kind_text@);
            lemma_leading_word(crate::text::trim_start(kind_text@));
        }
        let backtrace = match trace {
            Some(t) => Some(parse_backtrace(t)),
            None => None,
        };
        Some(ErrorInfo { type_, message, backtrace })
    }

    /// Classifies a simple error: its kind is the first word of its `Debug`
    /// rendering, its message its `Display` text; it carries no call stack.
    pub fn new_with_error<E: std::error::Error>(error: &E) -> (r: Option<ErrorInfo>)
        ensures
            r matches Some(e) ==> e.backtrace is None && e.type_@.len() > 0 && no_white(e.type_@),
    {
        let kind = debug_text(error);
        let message = display_text(error);
        ErrorInfo::classify(kind.as_str(), message, None)
    }

    /// Classifies an error chain: its kind is the first word of the root cause's
    /// `Debug` rendering, its message the outer error's text, and its frames come
    /// from the captured call stack, always present.
    pub fn from_anyhow(error: &ChainedError) -> (r: Option<ErrorInfo>)
        ensures
            r matches Some(e) ==> e.backtrace is Some && e.type_@.len() > 0 && no_white(e.type_@),
    {
        let kind = root_cause_text(error);
        let message = display_text(error);
        let trace = backtrace_text(error);
        ErrorInfo::classify(kind.as_str(), message, Some(trace.as_str()))
    }
}

/// How much a notice matters; `INVALID` stands where none was set.
#[allow(non_camel_case_types, clippy::upper_case_acronyms)]
#[derive(Debug, Clone, Copy, PartialEq, Eq)]
pub enum Severity {
    DEBUG,
    INFO,
    NOTICE,
    WARNING,
    ERROR,
    CRITICAL,
    ALERT,
    EMERGENCY,
    INVALID,
}

/// The lowercase name of a severity.
pub open spec fn severity_name(s: Severity) -> Seq<char> {
    match s {
        Severity::DEBUG => "debug"@,
        Severity::INFO => "info"@,
        Severity::NOTICE => "notice"@,
        Severity::WARNING => "warning"@,
        Severity::ERROR => "error"@,
        Severity::CRITICAL => "critical"@,
        Severity::ALERT => "alert"@,
        Severity::EMERGENCY => "emergency"@,
        Severity::INVALID => "invalid"@,
    }
}

/// The nine tokens that a severity is written as.
pub open spec fn severity_tokens() -> Seq<Seq<char>> {
    seq![
        "debug"@,
        "info"@,
        "notice"@,
        "warning"@,
        "error"@,
        "critical"@,
        "alert"@,
        "emergency"@,
        "invalid"@,
    ]
}

/// The token that a severity, or its absence, is written as.
pub open spec fn severity_token(s: Option<Severity>) -> Seq<char> {
    match s {
        Some(v) => severity_name(v),
        None => "invalid"@,
    }
}

impl Severity {
    /// The lowercase name of the severity.
    pub fn name(&self) -> (r: &'static str)
        ensures
            r@ == severity_name(*self),
    {
        match self {
            Severity::DEBUG => "debug",
            Severity::INFO => "info",
            Severity::NOTICE => "notice",
            Severity::WARNING => "warning",
            Severity::ERROR => "error",
            Severity::CRITICAL => "critical",
            Severity::ALERT => "alert",
            Severity::EMERGENCY => "emergency",
            Severity::INVALID => "invalid",
        }
    }

    /// The lowercase name of the severity, as an owned string.
    pub fn to_string(&self) -> (r: String)
        ensures
            r@ == severity_name(*self),
    {
        String::from_str(self.name())
    }
}

/// The token that `value` is written as: its name, or `invalid` where it is absent.
pub fn serialize_severity(value: &Option<Severity>) -> (r: &'static str)
    ensures
        r@ == severity_token(*value),
{
    match value {
        Some(s) => s.name(),
        None => Severity::INVALID.name(),
    }
}

/// Who was using the application when the error came.
pub struct UserInfo {
    pub id: Option<String>,
    pub name: Option<String>,
    pub email: Option<String>,
}

/// What reports the notice.
pub struct NotifierInfo {
    pub name: Option<String>,
    pub version: Option<String>,
    pub url: Option<String>,
}

/// Whether `n` names this library: its name, version and home.
pub open spec fn is_library_notifier(n: NotifierInfo) -> bool {
    &&& opt_view(n.name) == Some("errbit"@)
    &&& opt_view(n.version) == Some("0.1.0"@)
    &&& opt_view(n.url) == Some("https://github.com/kumanote/errbit-rs"@)
}

impl Default for NotifierInfo {
    /// This library's own name, version and home.
    fn default() -> (r: NotifierInfo)
        ensures
            is_library_notifier(r),
    {
        NotifierInfo {
            name: Some(String::from_str("errbit")),
            version: Some(String::from_str("0.1.0")),
            url: Some(String::from_str("https://github.com/kumanote/errbit-rs")),
        }
    }
}

/// Where and in what the error came.
pub struct Context {
    pub notifier: Option<NotifierInfo>,
    pub environment: Option<String>,
    pub severity: Option<Severity>,
    pub component: Option<String>,
    pub action: Option<String>,
    pub os: Option<String>,
    pub hostname: Option<String>,
    pub language: Option<String>,
    pub version: Option<String>,
    pub url: Option<String>,
    pub user_agent: Option<String>,
    pub user_addr: Option<String>,
    pub remote_addr: Option<String>,
    pub root_directory: Option<String>,
    pub user: Option<UserInfo>,
    pub route: Option<String>,
    pub http_method: Option<String>,
}

/// Whether no field of the request or of the user is set in `c`.
pub open spec fn request_fields_absent(c: Context) -> bool {
    &&& c.component is None
    &&& c.action is None
    &&& c.url is None
    &&& c.user_agent is None
    &&& c.user_addr is None
    &&& c.remote_addr is None
    &&& c.user is None
    &&& c.route is None
    &&& c.http_method is None
}

/// Whether `c` holds what `config` describes, with this library as notifier and
/// no severity, request or user.
pub open spec fn context_of(c: Context, config: Config) -> bool {
    &&& c.notifier matches Some(n) && is_library_notifier(n)
    &&& c.environment == config.environment
    &&& c.severity is None
    &&& c.os == config.app_os
    &&& c.hostname == config.app_hostname
    &&& c.language == config.app_language
    &&& c.version == config.app_version
    &&& c.root_directory == config.app_root_directory
    &&& request_fields_absent(c)
}

impl Default for Context {
    /// A context with no field set.
    fn default() -> (r: Context)
        ensures
            r.notifier is None,
            r.environment is None,
            r.severity is None,
            r.os is None,
            r.hostname is None,
            r.language is None,
            r.version is None,
            r.root_directory is None,
            request_fields_absent(r),
    {
        Context {
            notifier: None,
            environment: None,
            severity: None,
            component: None,
            action: None,
            os: None,
            hostname: None,
            language: None,
            version: None,
            url: None,
            user_agent: None,
            user_addr: None,
            remote_addr: None,
            root_directory: None,
            user: None,
            route: None,
            http_method: None,
        }
    }
}

impl Context {
    /// The context that `config` describes.
    pub fn new_from_config(config: &Config) -> (r: Context)
        ensures
            context_of(r, *config),
    {
        Context {
            notifier: Some(NotifierInfo::default()),
            environment: config.environment.clone(),
            severity: None,
            component: None,
            action: None,
            os: config.app_os.clone(),
            hostname: config.app_hostname.clone(),
            language: config.app_language.clone(),
            version: config.app_version.clone(),
            url: None,
            user_agent: None,
            user_addr: None,
            remote_addr: None,
            root_directory: config.app_root_directory.clone(),
            user: None,
            route: None,
            http_method: None,
        }
    }
}

/// The document that reports one error occurrence.
pub struct Notice {
    pub errors: Vec<ErrorInfo>,
    pub context: Context,
    pub environment: Option<StringMap>,
    pub session: Option<StringMap>,
    pub params: Option<StringMap>,
}

/// Whether `n` is the notice built from `info` and `config`: that one error, at
/// error severity, and no mappings.
pub open spec fn built_notice(n: Notice, info: ErrorInfo, config: Config) -> bool {
    &&& n.errors@ == seq![info]
    &&& n.context.severity == Some(Severity::ERROR)
    &&& context_of(Context { severity: None, ..n.context }, config)
    &&& n.environment is None
    &&& n.session is None
    &&& n.params is None
}

/// The identifiers that the collector gives a notice it took.
pub struct NotifyResult {
    pub id: String,
    pub url: String,
}

impl Notice {
    /// The notice of one classified error, described by `config`.
    pub fn new_from_info(info: ErrorInfo, config: &Config) -> (r: Notice)
        ensures
            built_notice(r, info, *config),
    {
        let mut context = Context::new_from_config(config);
        context.severity = Some(Severity::ERROR);
        let r = Notice {
            errors: vec![info],
            context,
            environment: None,
            session: None,
            params: None,
        };
        assert(r.errors@ =~= seq![info]);
        r
    }

    /// The notice of a simple error; none where its `Debug` rendering holds no word.
    pub fn new_from_std_error<E: std::error::Error>(error: &E, config: &Config) -> (r: Option<
        Notice,
    >)
        ensures
            r matches Some(n) ==> n.errors@.len() == 1 && n.errors@[0].backtrace is None
                && built_notice(n, n.errors@[0], *config),
    {
        match ErrorInfo::new_with_error(error) {
            Some(info) => Some(Notice::new_from_info(info, config)),
            None => None,
        }
    }

    /// The notice of an error chain; none where its root cause's `Debug`
    /// rendering holds no word.
    pub fn new_from_anyhow_error(error: &ChainedError, config: &Config) -> (r: Option<Notice>)
        ensures
            r matches Some(n) ==> n.errors@.len() == 1 && n.errors@[0].backtrace is Some
                && built_notice(n, n.errors@[0], *config),
    {
        match ErrorInfo::from_anyhow(error) {
            Some(info) => Some(Notice::new_from_info(info, config)),
            None => None,
        }
    }
}

} // verus!
