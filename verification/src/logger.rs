//! A logger that writes each record with the context of the running poll.
//!
//! The logger holds a format with the placeholders `{level}`, `{context}` and
//! `{message}` and a threshold level. A record is written when its level is
//! at most the threshold in the order of `log::Level`; the line written is
//! the format with the level's name, the description of the visible context
//! and the record's message put in for the placeholders, in that order.
use vstd::prelude::*;
use crate::text::{
    lemma_no_start_in, lemma_replaced_absent, lemma_replaced_at_start, lemma_replaced_skip, occurs_at,
    replaced, replace_all,
};
use log::Level as L;

verus! {

/// The verbosity levels of `log::Level`, from the most to the least severe.
#[derive(Clone, Copy, PartialEq, Eq, Debug)]
pub enum LogLevel {
    Error,
    Warn,
    Info,
    Debug,
    Trace,
}

/// The position of a level in the order of `log::Level`.
pub open spec fn level_rank(level: LogLevel) -> int {
    match level {
        LogLevel::Error => 1,
        LogLevel::Warn => 2,
        LogLevel::Info => 3,
        LogLevel::Debug => 4,
        LogLevel::Trace => 5,
    }
}

/// The name under which `log` displays a level.
pub open spec fn level_name(level: LogLevel) -> Seq<char> {
    match level {
        LogLevel::Error => seq!['E', 'R', 'R', 'O', 'R'],
        LogLevel::Warn => seq!['W', 'A', 'R', 'N'],
        LogLevel::Info => seq!['I', 'N', 'F', 'O'],
        LogLevel::Debug => seq!['D', 'E', 'B', 'U', 'G'],
        LogLevel::Trace => seq!['T', 'R', 'A', 'C', 'E'],
    }
}

/// The level that an upper-case level name selects; any other text selects
/// `Info`.
pub open spec fn level_for_name(name: Seq<char>) -> LogLevel {
    if name == level_name(LogLevel::Error) {
        LogLevel::Error
    } else if name == level_name(LogLevel::Warn) {
        LogLevel::Warn
    } else if name == level_name(LogLevel::Info) {
        LogLevel::Info
    } else if name == level_name(LogLevel::Debug) {
        LogLevel::Debug
    } else if name == level_name(LogLevel::Trace) {
        LogLevel::Trace
    } else {
        LogLevel::Info
    }
}

/// What `str::to_uppercase` gives for a text.
pub uninterp spec fn uppercase_of(s: Seq<char>) -> Seq<char>;

/// The upper case of an ASCII character: `a` to `z` become `A` to `Z`, every
/// other character stays.
pub open spec fn ascii_upper(c: char) -> char {
    if 'a' <= c && c <= 'z' {
        ((c as u32) - 32) as char
    } else {
        c
    }
}

/// The upper case of a text made of ASCII characters only.
pub open spec fn ascii_uppercase_of(s: Seq<char>) -> Seq<char> {
    s.map_values(|c: char| ascii_upper(c))
}

/// `str::to_uppercase`: the text with each character mapped to its Unicode
/// upper case. For a text of ASCII characters only, that is `a` to `z`
/// mapped to `A` to `Z` and every other character kept; for other texts only
/// that the result is a function of the text is claimed.
#[verifier::external_body]
fn to_uppercase(s: &str) -> (r: String)
    ensures
        r@ == uppercase_of(s@),
        vstd::utf8::is_ascii_chars(s@) ==> r@ == ascii_uppercase_of(s@),
{
    s.to_uppercase()
}

/// `log::Level::as_str`: the name of a level, taken from the table of names
/// in `log`.
#[verifier::external_body]
fn level_as_str(level: LogLevel) -> (r: &'static str)
    ensures
        r@ == level_name(level),
{
    let l = match level {
        LogLevel::Error => L::Error,
        LogLevel::Warn => L::Warn,
        LogLevel::Info => L::Info,
        LogLevel::Debug => L::Debug,
        LogLevel::Trace => L::Trace,
    };
    l.as_str()
}

/// `<=` on `log::Level`, which orders the levels as they are declared, from
/// `Error` to `Trace`.
#[verifier::external_body]
fn level_at_most(level: LogLevel, threshold: LogLevel) -> (r: bool)
    ensures
        r == (level_rank(level) <= level_rank(threshold)),
{
    let a = match level {
        LogLevel::Error => L::Error, LogLevel::Warn => L::Warn, LogLevel::Info => L::Info,
        LogLevel::Debug => L::Debug, LogLevel::Trace => L::Trace,
    };
    let b = match threshold {
        LogLevel::Error => L::Error, LogLevel::Warn => L::Warn, LogLevel::Info => L::Info,
        LogLevel::Debug => L::Debug, LogLevel::Trace => L::Trace,
    };
    a <= b
}

/// The level that an already upper-cased level name selects.
pub fn level_from_uppercase(name: &str) -> (r: LogLevel)
    ensures
        r == level_for_name(name@),
{
    let name = String::from_str(name);
    proof {
        reveal_strlit("ERROR");
        reveal_strlit("WARN");
        reveal_strlit("INFO");
        reveal_strlit("DEBUG");
        reveal_strlit("TRACE");
        assert("ERROR"@ =~= level_name(LogLevel::Error));
        assert("WARN"@ =~= level_name(LogLevel::Warn));
        assert("INFO"@ =~= level_name(LogLevel::Info));
        assert("DEBUG"@ =~= level_name(LogLevel::Debug));
        assert("TRACE"@ =~= level_name(LogLevel::Trace));
    }
    if name == String::from_str("ERROR") {
        LogLevel::Error
    } else if name == String::from_str("WARN") {
        LogLevel::Warn
    } else if name == String::from_str("INFO") {
        LogLevel::Info
    } else if name == String::from_str("DEBUG") {
        LogLevel::Debug
    } else if name == String::from_str("TRACE") {
        LogLevel::Trace
    } else {
        LogLevel::Info
    }
}

/// The level that the value of the `RUST_LOG` variable selects, compared
/// after it has been upper-cased; an unset variable is the empty text.
pub fn level_from_env_value(value: &str) -> (r: LogLevel)
    ensures
        r == level_for_name(uppercase_of(value@)),
        vstd::utf8::is_ascii_chars(value@) ==> r == level_for_name(ascii_uppercase_of(value@)),
{
    let upper = to_uppercase(value);
    level_from_uppercase(upper.as_str())
}

/// The format used when none is given: `{level} - {context} - {message}`.
pub open spec fn default_format() -> Seq<char> {
    level_placeholder() + separator() + context_placeholder() + separator() + message_placeholder()
}

/// The text between the parts of the default format.
pub open spec fn separator() -> Seq<char> {
    seq![' ', '-', ' ']
}

pub open spec fn level_placeholder() -> Seq<char> {
    seq!['{', 'l', 'e', 'v', 'e', 'l', '}']
}

pub open spec fn context_placeholder() -> Seq<char> {
    seq!['{', 'c', 'o', 'n', 't', 'e', 'x', 't', '}']
}

pub open spec fn message_placeholder() -> Seq<char> {
    seq!['{', 'm', 'e', 's', 's', 'a', 'g', 'e', '}']
}

/// The line written for a record: the placeholders of `format` replaced by
/// the level's name, then the context, then the message.
pub open spec fn rendered(
    format: Seq<char>,
    level: LogLevel,
    context: Seq<char>,
    message: Seq<char>,
) -> Seq<char> {
    replaced(
        replaced(replaced(format, level_placeholder(), level_name(level)), context_placeholder(), context),
        message_placeholder(),
        message,
    )
}

/// The abstract state of a logger.
pub struct LoggerView {
    pub format: Option<Seq<char>>,
    pub level: Option<LogLevel>,
}

/// Whether a logger in state `v` writes records of `level`.
pub open spec fn logs_at(v: LoggerView, level: LogLevel) -> bool {
    match v.level {
        Some(threshold) => level_rank(level) <= level_rank(threshold),
        None => false,
    }
}

/// The state of a logger initialised with `format` and the value `rust_log`
/// of the `RUST_LOG` variable.
pub open spec fn initialised(format: Option<Seq<char>>, rust_log: Seq<char>) -> LoggerView {
    LoggerView {
        format: Some(
            match format {
                Some(f) => f,
                None => default_format(),
            },
        ),
        level: Some(level_for_name(uppercase_of(rust_log))),
    }
}

/// A logger that puts the context of the running poll into every line.
pub struct ContextLogger<C> {
    pub _phantom: core::marker::PhantomData<C>,
    format: Option<String>,
    level: Option<LogLevel>,
}

impl<C> View for ContextLogger<C> {
    type V = LoggerView;

    closed spec fn view(&self) -> LoggerView {
        LoggerView {
            format: match self.format {
                Some(f) => Some(f@),
                None => None,
            },
            level: self.level,
        }
    }
}

impl<C> ContextLogger<C> {
    /// A logger that is not initialised: it has no format and writes nothing.
    pub fn new() -> (r: Self)
        ensures
            r@.format is None,
            r@.level is None,
    {
        ContextLogger { _phantom: core::marker::PhantomData, format: None, level: None }
    }

    /// Initialises the logger with `format`, or the default format when it
    /// is `None`, and with the level that `rust_log`, the value of the
    /// `RUST_LOG` variable, selects.
    pub fn init(&mut self, format: Option<String>, rust_log: &str)
        ensures
            final(self)@ == initialised(
                match format {
                    Some(f) => Some(f@),
                    None => None,
                },
                rust_log@,
            ),
            format matches Some(f) ==> final(self)@.format == Some(f@),
            format is None ==> final(self)@.format == Some(default_format()),
            forall|l: LogLevel|
                uppercase_of(rust_log@) == #[trigger] level_name(l) ==> final(self)@.level == Some(l),
            vstd::utf8::is_ascii_chars(rust_log@) ==> final(self)@.level == Some(
                level_for_name(ascii_uppercase_of(rust_log@)),
            ),
    {
        proof {
            assert forall|l: LogLevel| uppercase_of(rust_log@) == #[trigger] level_name(l) implies level_for_name(
                uppercase_of(rust_log@),
            ) == l by {
                lemma_name_selects_level(l);
            }
        }
        let level = level_from_env_value(rust_log);
        let format = match format {
            Some(f) => f,
            None => {
                let d = String::from_str("{level} - {context} - {message}");
                proof {
                    reveal_strlit("{level} - {context} - {message}");
                    assert(d@ =~= default_format());
                }
                d
            },
        };
        self.format = Some(format);
        self.level = Some(level);
    }

    /// Whether records of `level` are written.
    pub fn enabled(&self, level: LogLevel) -> (r: bool)
        ensures
            r == logs_at(self@, level),
    {
        match self.level {
            Some(threshold) => level_at_most(level, threshold),
            None => false,
        }
    }

    /// The line written for a record of `level` with `message`, while the
    /// visible context is described by `context`; `None` when nothing is
    /// written.
    pub fn render(&self, level: LogLevel, context: &str, message: &str) -> (r: Option<String>)
        ensures
            r matches Some(line) ==> logs_at(self@, level) && self@.format is Some && line@
                == rendered(self@.format->0, level, context@, message@),
            r is None ==> !logs_at(self@, level) || self@.format is None,
    {
        if !self.enabled(level) {
            return None;
        }
        match &self.format {
            Some(format) => {
                proof {
                    reveal_strlit("{level}");
                    reveal_strlit("{context}");
                    reveal_strlit("{message}");
                    assert("{level}"@ =~= level_placeholder());
                    assert("{context}"@ =~= context_placeholder());
                    assert("{message}"@ =~= message_placeholder());
                }
                let with_level = replace_all(format.as_str(), "{level}", level_as_str(level));
                let with_context = replace_all(with_level.as_str(), "{context}", context);
                Some(replace_all(with_context.as_str(), "{message}", message))
            },
            None => None,
        }
    }
}

/// A logger that has not been initialised writes no record.
pub proof fn lemma_new_logger_writes_nothing(level: LogLevel)
    ensures
        !logs_at(LoggerView { format: None, level: None }, level),
{
}

/// An initialised logger writes every error record, whatever `RUST_LOG` holds.
pub proof fn lemma_errors_always_written(format: Option<Seq<char>>, rust_log: Seq<char>)
    ensures
        logs_at(initialised(format, rust_log), LogLevel::Error),
        initialised(format, rust_log).format is Some,
{
}

/// A logger that writes records of a level writes those of every more severe
/// level too.
pub proof fn lemma_more_severe_written(v: LoggerView, level: LogLevel, severer: LogLevel)
    requires
        logs_at(v, level),
        level_rank(severer) <= level_rank(level),
    ensures
        logs_at(v, severer),
{
}

/// A `RUST_LOG` value that names no level, once upper-cased, sets the
/// threshold to `Info`: records up to `Info` are written, `Debug` and `Trace`
/// ones are not.
pub proof fn lemma_unknown_level_is_info(format: Option<Seq<char>>, rust_log: Seq<char>)
    requires
        forall|l: LogLevel| uppercase_of(rust_log) != level_name(l),
    ensures
        initialised(format, rust_log).level == Some(LogLevel::Info),
        logs_at(initialised(format, rust_log), LogLevel::Info),
        !logs_at(initialised(format, rust_log), LogLevel::Debug),
{
    assert(uppercase_of(rust_log) != level_name(LogLevel::Error));
    assert(uppercase_of(rust_log) != level_name(LogLevel::Warn));
    assert(uppercase_of(rust_log) != level_name(LogLevel::Info));
    assert(uppercase_of(rust_log) != level_name(LogLevel::Debug));
    assert(uppercase_of(rust_log) != level_name(LogLevel::Trace));
}

/// A format without placeholders is written as it stands.
pub proof fn lemma_plain_format_unchanged(
    format: Seq<char>,
    level: LogLevel,
    context: Seq<char>,
    message: Seq<char>,
)
    requires
        forall|i: int| !occurs_at(format, level_placeholder(), i),
        forall|i: int| !occurs_at(format, context_placeholder(), i),
        forall|i: int| !occurs_at(format, message_placeholder(), i),
    ensures
        rendered(format, level, context, message) == format,
{
    lemma_replaced_absent(format, level_placeholder(), level_name(level));
    lemma_replaced_absent(format, context_placeholder(), context);
    lemma_replaced_absent(format, message_placeholder(), message);
}

/// The level's name put in for its placeholder in the default format.
proof fn lemma_default_step_level(name: Seq<char>)
    ensures
        replaced(default_format(), level_placeholder(), name) == name + separator()
            + context_placeholder() + separator() + message_placeholder(),
{
    let l = level_placeholder();
    let r1 = seq![
        ' ', '-', ' ', '{', 'c', 'o', 'n', 't', 'e', 'x', 't', '}', ' ', '-', ' ', '{', 'm', 'e',
        's', 's', 'a', 'g', 'e', '}'
    ];
    assert(r1 =~= separator() + context_placeholder() + separator() + message_placeholder());
    assert(default_format() =~= l + r1);
    lemma_replaced_at_start(l, r1, name);
    assert forall|i: int| !occurs_at(r1, l, i) by {
        if occurs_at(r1, l, i) {
            assert(r1.subrange(i, i + l.len())[0] == r1[i]);
            assert(r1.subrange(i, i + l.len())[1] == r1[i + 1]);
        }
    }
    lemma_replaced_absent(r1, l, name);
    assert(name + r1 =~= name + separator() + context_placeholder() + separator()
        + message_placeholder());
}

/// The context's description put in for its placeholder, after a head
/// without `{`.
proof fn lemma_default_step_context(head: Seq<char>, context: Seq<char>)
    requires
        forall|i: int| 0 <= i < head.len() ==> head[i] != '{',
    ensures
        replaced(head + context_placeholder() + separator() + message_placeholder(), context_placeholder(), context)
            == head + context + separator() + message_placeholder(),
{
    let c = context_placeholder();
    let r2 = seq![' ', '-', ' ', '{', 'm', 'e', 's', 's', 'a', 'g', 'e', '}'];
    assert(r2 =~= separator() + message_placeholder());
    assert(head + c + separator() + message_placeholder() =~= head + (c + r2));
    lemma_no_start_in(head, c + r2, c);
    lemma_replaced_skip(head, c + r2, c, context);
    lemma_replaced_at_start(c, r2, context);
    assert forall|i: int| !occurs_at(r2, c, i) by {
        if occurs_at(r2, c, i) {
            assert(r2.subrange(i, i + c.len())[0] == r2[i]);
            assert(r2.subrange(i, i + c.len())[1] == r2[i + 1]);
        }
    }
    lemma_replaced_absent(r2, c, context);
    assert(head + (context + r2) =~= head + context + separator() + message_placeholder());
}

/// The message put in for its placeholder, after a head without `{` and a
/// description that does not hold the placeholder.
#[verifier::spinoff_prover]
#[verifier::rlimit(40)]
proof fn lemma_default_step_message(head: Seq<char>, context: Seq<char>, message: Seq<char>)
    requires
        forall|i: int| 0 <= i < head.len() ==> head[i] != '{',
        forall|i: int| !occurs_at(context, message_placeholder(), i),
    ensures
        replaced(head + context + separator() + message_placeholder(), message_placeholder(), message)
            == head + context + separator() + message,
{
    let m = message_placeholder();
    let sep = separator();
    let front = head + context + sep;
    assert forall|i: int| 0 <= i < front.len() implies !occurs_at(front + m, m, i) by {
        let s = front + m;
        if occurs_at(s, m, i) {
            let sub = s.subrange(i, i + m.len());
            if i < head.len() {
                assert(sub[0] == s[i]);
                assert(s[i] == head[i]);
            } else if i < head.len() + context.len() {
                let j = i - head.len();
                if j + m.len() <= context.len() {
                    assert(context.subrange(j, j + m.len()) =~= sub);
                    assert(occurs_at(context, m, j));
                } else {
                    let k = context.len() - j;
                    assert(sub[k] == s[(head.len() + context.len()) as int]);
                    assert(s[(head.len() + context.len()) as int] == ' ');
                }
            } else {
                assert(sub[0] == s[i]);
                assert(s[i] == sep[i - head.len() - context.len()]);
            }
        }
    }
    lemma_replaced_skip(front, m, m, message);
    lemma_replaced_at_start(m, Seq::<char>::empty(), message);
    assert(m + Seq::<char>::empty() =~= m);
    assert(message + Seq::<char>::empty() =~= message);
}

/// With the default format, a record is written as its level's name, the
/// description of the context and the message, separated by `" - "`, as long
/// as the description does not itself hold the `{message}` placeholder.
pub proof fn lemma_default_format_line(level: LogLevel, context: Seq<char>, message: Seq<char>)
    requires
        forall|i: int| !occurs_at(context, message_placeholder(), i),
    ensures
        rendered(default_format(), level, context, message) == level_name(level) + separator()
            + context + separator() + message,
{
    let name = level_name(level);
    let head = name + separator();
    lemma_default_step_level(name);
    assert(forall|i: int| 0 <= i < head.len() ==> head[i] != '{');
    lemma_default_step_context(head, context);
    lemma_default_step_message(head, context, message);
}

/// The name of a level in lower case, as `RUST_LOG` is usually written.
pub open spec fn lowercase_level_name(level: LogLevel) -> Seq<char> {
    match level {
        LogLevel::Error => seq!['e', 'r', 'r', 'o', 'r'],
        LogLevel::Warn => seq!['w', 'a', 'r', 'n'],
        LogLevel::Info => seq!['i', 'n', 'f', 'o'],
        LogLevel::Debug => seq!['d', 'e', 'b', 'u', 'g'],
        LogLevel::Trace => seq!['t', 'r', 'a', 'c', 'e'],
    }
}

/// Each level's name selects that level.
proof fn lemma_name_selects_level(level: LogLevel)
    ensures
        level_for_name(level_name(level)) == level,
{
    let n = level_name(level);
    assert(n[0] != level_name(LogLevel::Error)[0] ==> n != level_name(LogLevel::Error));
    assert(n[0] != level_name(LogLevel::Warn)[0] ==> n != level_name(LogLevel::Warn));
    assert(n[0] != level_name(LogLevel::Info)[0] ==> n != level_name(LogLevel::Info));
    assert(n[0] != level_name(LogLevel::Debug)[0] ==> n != level_name(LogLevel::Debug));
}

/// The lower-case name of a level is made of ASCII characters and has the
/// level's name as its upper case.
proof fn lemma_lowercase_name(level: LogLevel)
    ensures
        vstd::utf8::is_ascii_chars(lowercase_level_name(level)),
        ascii_uppercase_of(lowercase_level_name(level)) == level_name(level),
{
    let low = lowercase_level_name(level);
    match level {
        LogLevel::Error => assert(ascii_uppercase_of(low) =~= level_name(level)),
        LogLevel::Warn => assert(ascii_uppercase_of(low) =~= level_name(level)),
        LogLevel::Info => assert(ascii_uppercase_of(low) =~= level_name(level)),
        LogLevel::Debug => assert(ascii_uppercase_of(low) =~= level_name(level)),
        LogLevel::Trace => assert(ascii_uppercase_of(low) =~= level_name(level)),
    }
}

/// A `RUST_LOG` value that names a level, in lower or upper case, selects
/// that level; an unset (empty) value selects `Info`.
pub proof fn lemma_rust_log_selects_named_level(level: LogLevel)
    ensures
        vstd::utf8::is_ascii_chars(lowercase_level_name(level)),
        level_for_name(ascii_uppercase_of(lowercase_level_name(level))) == level,
        vstd::utf8::is_ascii_chars(level_name(level)),
        level_for_name(ascii_uppercase_of(level_name(level))) == level,
        vstd::utf8::is_ascii_chars(Seq::<char>::empty()),
        level_for_name(ascii_uppercase_of(Seq::<char>::empty())) == LogLevel::Info,
{
    lemma_lowercase_name(level);
    lemma_name_selects_level(level);
    let up = level_name(level);
    assert(ascii_uppercase_of(up) =~= up);
    let e = Seq::<char>::empty();
    assert(ascii_uppercase_of(e) =~= e);
    assert(e.len() != level_name(LogLevel::Error).len());
    assert(e.len() != level_name(LogLevel::Warn).len());
    assert(e.len() != level_name(LogLevel::Info).len());
    assert(e.len() != level_name(LogLevel::Debug).len());
    assert(e.len() != level_name(LogLevel::Trace).len());
}

/// A logger initialised with a format keeps exactly that format, whatever
/// `RUST_LOG` holds; without one it takes the default format.
pub proof fn lemma_given_format_kept(format: Seq<char>, rust_log: Seq<char>)
    ensures
        initialised(Some(format), rust_log).format == Some(format),
        initialised(None, rust_log).format == Some(default_format()),
{
}

/// When `RUST_LOG`, upper-cased, is the name of a level, that level is the
/// threshold: exactly the records of it and of more severe levels are
/// written, whatever format is given.
pub proof fn lemma_named_level_is_threshold(
    format: Option<Seq<char>>,
    rust_log: Seq<char>,
    level: LogLevel,
    record: LogLevel,
)
    requires
        uppercase_of(rust_log) == level_name(level),
    ensures
        initialised(format, rust_log).level == Some(level),
        logs_at(initialised(format, rust_log), record) <==> level_rank(record) <= level_rank(level),
{
    lemma_name_selects_level(level);
}

/// With `RUST_LOG` naming `Info`, `Debug` and `Trace` records are not written
/// and `Info`, `Warn` and `Error` ones are.
pub proof fn lemma_info_threshold_hides_debug(format: Option<Seq<char>>, rust_log: Seq<char>)
    requires
        uppercase_of(rust_log) == level_name(LogLevel::Info),
    ensures
        !logs_at(initialised(format, rust_log), LogLevel::Debug),
        !logs_at(initialised(format, rust_log), LogLevel::Trace),
        logs_at(initialised(format, rust_log), LogLevel::Info),
        logs_at(initialised(format, rust_log), LogLevel::Warn),
        logs_at(initialised(format, rust_log), LogLevel::Error),
{
    lemma_name_selects_level(LogLevel::Info);
}

} // verus!
