//! What a command writes: plain lines, marked lines (success, warning,
//! error), headings, progress notes and JSON records, decided by the
//! verbosity, quiet and JSON settings.
use vstd::prelude::*;
use crate::languages::json::JsonValue;
use crate::text::{chars_of, concat, push_all, push_char, string_from};

verus! {

/// How a line is shown.
#[derive(Debug, Clone, Copy, PartialEq, Eq, Structural)]
pub enum LineKind {
    /// Text written as it is.
    Plain,
    /// A success message, after a check mark.
    Success,
    /// A warning, after an exclamation mark.
    Warn,
    /// An error, after a cross, on the error stream.
    Error,
    /// The title of a heading, shown bold where colour is on.
    Heading,
    /// A JSON record.
    Json,
    /// A transient progress note (`text...`).
    Progress,
    /// The end of a progress note.
    ProgressDone,
}

/// The fields of a JSON record; absent fields are not written.
pub struct JsonRecord {
    pub command: String,
    pub message: Option<String>,
    pub files_scanned: Option<usize>,
    pub files_changed: Option<usize>,
    pub replacements: Option<usize>,
    pub errors: Option<usize>,
    pub skipped: Option<usize>,
    pub data: Option<JsonValue>,
}

/// One thing written.
pub struct Line {
    pub kind: LineKind,
    pub text: String,
    pub record: Option<JsonRecord>,
}

/// The summary a command writes in JSON mode.
pub struct ScanResult {
    pub command: String,
    pub files_scanned: usize,
    pub files_changed: Option<usize>,
    pub replacements: Option<usize>,
    pub errors: Option<usize>,
    pub skipped: Option<usize>,
    pub data: Option<JsonValue>,
}

/// Where a command's output goes, and what it has written so far.  A
/// captured output never shows progress notes and is never coloured.
pub struct Output {
    pub verbose: bool,
    pub quiet: bool,
    pub json_mode: bool,
    pub color: bool,
    pub captured: bool,
    pub lines: Vec<Line>,
}

/// The text a captured output has been flushed into.
pub struct Capture {
    pub text: String,
}

/// What identifies a JSON record: its command, then `: ` and its message
/// where it has one.
pub open spec fn record_key(command: Seq<char>, message: Option<Seq<char>>) -> Seq<char> {
    match message {
        Some(m) => command + ": "@ + m,
        None => command,
    }
}

/// The (kind, text) of a line; for a JSON record, the text is the record's
/// key.
pub open spec fn line_view(l: Line) -> (LineKind, Seq<char>) {
    match l.record {
        Some(r) if l.kind == LineKind::Json => (
            l.kind,
            record_key(
                r.command@,
                match r.message {
                    Some(m) => Some(m@),
                    None => None,
                },
            ),
        ),
        _ => (l.kind, l.text@),
    }
}

/// The (kind, text) of lines.
pub open spec fn line_views(v: Seq<Line>) -> Seq<(LineKind, Seq<char>)> {
    v.map_values(|l: Line| line_view(l))
}

/// The lines of `o` are those of `old` followed by `added`, settings unchanged.
pub open spec fn wrote(o: Output, old: Output, added: Seq<(LineKind, Seq<char>)>) -> bool {
    &&& line_views(o.lines@) == line_views(old.lines@) + added
    &&& o.verbose == old.verbose
    &&& o.quiet == old.quiet
    &&& o.json_mode == old.json_mode
    &&& o.color == old.color
    &&& o.captured == old.captured
}

/// `─` repeated `n` times.
pub open spec fn rule(n: nat) -> Seq<char> {
    Seq::new(n, |i: int| '\u{2500}')
}

/// The number of UTF-8 bytes of a character.
pub open spec fn utf8_width(c: char) -> nat {
    if (c as u32) < 0x80 {
        1
    } else if (c as u32) < 0x800 {
        2
    } else if (c as u32) < 0x10000 {
        3
    } else {
        4
    }
}

/// The number of UTF-8 bytes of a text (`str::len`).
pub open spec fn utf8_len(s: Seq<char>) -> nat
    decreases s.len(),
{
    if s.len() == 0 {
        0
    } else {
        utf8_len(s.drop_last()) + utf8_width(s.last())
    }
}

/// The width of the rule under a heading: its byte length, at most 60.
pub open spec fn rule_width(msg: Seq<char>) -> nat {
    if utf8_len(msg) < 60 {
        utf8_len(msg)
    } else {
        60
    }
}

/// The lines a heading adds, when it is shown.
pub open spec fn heading_lines(msg: Seq<char>) -> Seq<(LineKind, Seq<char>)> {
    seq![(LineKind::Plain, Seq::empty()), (LineKind::Heading, msg), (LineKind::Plain, rule(rule_width(msg)))]
}

/// The JSON record of a message.
pub open spec fn message_record(r: JsonRecord, command: Seq<char>, message: Seq<char>) -> bool {
    &&& r.command@ == command
    &&& r.message matches Some(m) && m@ == message
    &&& r.files_scanned is None
    &&& r.files_changed is None
    &&& r.replacements is None
    &&& r.errors is None
    &&& r.skipped is None
    &&& r.data is None
}

/// The text of a line as written without colour.
pub open spec fn spec_plain_text(kind: LineKind, text: Seq<char>) -> Seq<char> {
    match kind {
        LineKind::Success => "  \u{2713} "@ + text,
        LineKind::Warn => "  ! "@ + text,
        LineKind::Error => "  \u{2717} "@ + text,
        _ => text,
    }
}

/// What a success message adds.
pub open spec fn out_success(o: Output, msg: Seq<char>) -> Seq<(LineKind, Seq<char>)> {
    if o.quiet {
        Seq::empty()
    } else if o.json_mode {
        seq![(LineKind::Json, record_key("ok"@, Some(msg)))]
    } else {
        seq![(LineKind::Success, msg)]
    }
}

/// What a warning adds.
pub open spec fn out_warn(o: Output, msg: Seq<char>) -> Seq<(LineKind, Seq<char>)> {
    if o.quiet {
        Seq::empty()
    } else if o.json_mode {
        seq![(LineKind::Json, record_key("warn"@, Some(msg)))]
    } else {
        seq![(LineKind::Warn, msg)]
    }
}

/// What an error adds.
pub open spec fn out_error(o: Output, msg: Seq<char>) -> Seq<(LineKind, Seq<char>)> {
    if o.json_mode {
        seq![(LineKind::Json, record_key("error"@, Some(msg)))]
    } else {
        seq![(LineKind::Error, msg)]
    }
}

/// What an indented message (`info` or `line`) adds.
pub open spec fn out_info(o: Output, msg: Seq<char>) -> Seq<(LineKind, Seq<char>)> {
    if o.quiet || o.json_mode {
        Seq::empty()
    } else {
        seq![(LineKind::Plain, "  "@ + msg)]
    }
}

/// What a verbose note adds.
pub open spec fn out_verbose(o: Output, msg: Seq<char>) -> Seq<(LineKind, Seq<char>)> {
    if o.verbose && !o.quiet && !o.json_mode {
        seq![(LineKind::Plain, "  [verbose] "@ + msg)]
    } else {
        Seq::empty()
    }
}

/// What a heading adds.
pub open spec fn out_heading(o: Output, msg: Seq<char>) -> Seq<(LineKind, Seq<char>)> {
    if o.quiet || o.json_mode {
        Seq::empty()
    } else {
        heading_lines(msg)
    }
}

/// What an empty line adds.
pub open spec fn out_blank(o: Output) -> Seq<(LineKind, Seq<char>)> {
    if o.quiet || o.json_mode {
        Seq::empty()
    } else {
        seq![(LineKind::Plain, Seq::empty())]
    }
}

/// What the summary of `command` adds.
pub open spec fn out_result(o: Output, command: Seq<char>) -> Seq<(LineKind, Seq<char>)> {
    if o.json_mode {
        seq![(LineKind::Json, command)]
    } else {
        Seq::empty()
    }
}

/// A summary record of `command` with the given counts and no message.
pub open spec fn summary_record(
    r: JsonRecord,
    command: Seq<char>,
    files_scanned: usize,
    files_changed: Option<usize>,
    replacements: Option<usize>,
    errors: Option<usize>,
) -> bool {
    &&& r.command@ == command
    &&& r.message is None
    &&& r.files_scanned == Some(files_scanned)
    &&& r.files_changed == files_changed
    &&& r.replacements == replacements
    &&& r.errors == errors
    &&& r.skipped is None
}

/// What a progress note adds.
pub open spec fn out_progress(o: Output, msg: Seq<char>) -> Seq<(LineKind, Seq<char>)> {
    if o.captured || o.quiet || o.json_mode {
        Seq::empty()
    } else {
        seq![(LineKind::Progress, msg)]
    }
}

/// What the end of a progress note adds.
pub open spec fn out_progress_done(o: Output) -> Seq<(LineKind, Seq<char>)> {
    if o.captured || o.quiet || o.json_mode {
        Seq::empty()
    } else {
        seq![(LineKind::ProgressDone, Seq::empty())]
    }
}

/// The settings of two outputs agree.
pub open spec fn same_settings(a: Output, b: Output) -> bool {
    &&& a.verbose == b.verbose
    &&& a.quiet == b.quiet
    &&& a.json_mode == b.json_mode
    &&& a.color == b.color
    &&& a.captured == b.captured
}

/// `"  "` before a message.
fn indented(msg: &str) -> (r: String)
    ensures
        r@ == "  "@ + msg@,
{
    concat("  ", msg)
}

impl Output {
    /// An output to the terminal.
    pub fn new(verbose: bool, quiet: bool, json_mode: bool, no_color: bool) -> (r: Self)
        ensures
            r.verbose == verbose,
            r.quiet == quiet,
            r.json_mode == json_mode,
            r.color == !no_color,
            !r.captured,
            r.lines@.len() == 0,
    {
        Output { verbose, quiet, json_mode, color: !no_color, captured: false, lines: Vec::new() }
    }

    /// An output captured as text, without colour, and the capture it is
    /// flushed into.
    pub fn captured(verbose: bool, quiet: bool, json_mode: bool) -> (r: (Self, Capture))
        ensures
            r.0.verbose == verbose,
            r.0.quiet == quiet,
            r.0.json_mode == json_mode,
            !r.0.color,
            r.0.captured,
            r.0.lines@.len() == 0,
            r.1.text@.len() == 0,
    {
        (
            Output { verbose, quiet, json_mode, color: false, captured: true, lines: Vec::new() },
            Capture { text: String::new() },
        )
    }

    fn push_line(&mut self, kind: LineKind, text: String)
        ensures
            wrote(*final(self), *old(self), seq![(kind, text@)]),
    {
        let ghost before = line_views(self.lines@);
        let ghost tv = text@;
        self.lines.push(Line { kind, text, record: None });
        proof {
            assert(line_views(self.lines@) =~= before + seq![(kind, tv)]);
        }
    }

    fn push_record(&mut self, record: JsonRecord)
        ensures
            wrote(
                *final(self),
                *old(self),
                seq![
                    (
                        LineKind::Json,
                        record_key(
                            record.command@,
                            match record.message {
                                Some(m) => Some(m@),
                                None => None,
                            },
                        ),
                    ),
                ],
            ),
            final(self).lines@.len() == old(self).lines@.len() + 1,
            final(self).lines@.last().record == Some(record),
    {
        let ghost before = line_views(self.lines@);
        let line = Line { kind: LineKind::Json, text: String::new(), record: Some(record) };
        let ghost lv = line_view(line);
        self.lines.push(line);
        proof {
            assert(line_views(self.lines@) =~= before + seq![lv]);
        }
    }

    /// A success message: nothing when quiet; a JSON record `ok` in JSON
    /// mode; else the message after a check mark.
    pub fn success(&mut self, msg: &str)
        ensures
            wrote(*final(self), *old(self), out_success(*old(self), msg@)),
            old(self).quiet ==> wrote(*final(self), *old(self), Seq::empty()),
            !old(self).quiet && old(self).json_mode ==> wrote(*final(self), *old(self), seq![(LineKind::Json, record_key("ok"@, Some(msg@)))])
                && (final(self).lines@.last().record matches Some(r) && message_record(r, "ok"@, msg@)),
            !old(self).quiet && !old(self).json_mode ==> wrote(*final(self), *old(self), seq![(LineKind::Success, msg@)]),
    {
        if self.quiet {
            proof {
                assert(line_views(self.lines@) =~= line_views(self.lines@) + Seq::<(LineKind, Seq<char>)>::empty());
            }
            return;
        }
        if self.json_mode {
            self.print_json("ok", Some(string_from(&chars_of(msg))), None);
        } else {
            self.push_line(LineKind::Success, string_from(&chars_of(msg)));
        }
    }

    /// A message indented by two spaces; nothing when quiet or in JSON mode.
    pub fn info(&mut self, msg: &str)
        ensures
            wrote(*final(self), *old(self), out_info(*old(self), msg@)),
            old(self).quiet || old(self).json_mode ==> wrote(*final(self), *old(self), Seq::empty()),
            !old(self).quiet && !old(self).json_mode ==> wrote(*final(self), *old(self), seq![(LineKind::Plain, "  "@ + msg@)]),
    {
        if self.quiet || self.json_mode {
            proof {
                assert(line_views(self.lines@) =~= line_views(self.lines@) + Seq::<(LineKind, Seq<char>)>::empty());
            }
            return;
        }
        self.push_line(LineKind::Plain, indented(msg));
    }

    /// A warning: nothing when quiet; a JSON record `warn` in JSON mode;
    /// else the message after an exclamation mark.
    pub fn warn(&mut self, msg: &str)
        ensures
            wrote(*final(self), *old(self), out_warn(*old(self), msg@)),
            old(self).quiet ==> wrote(*final(self), *old(self), Seq::empty()),
            !old(self).quiet && old(self).json_mode ==> wrote(*final(self), *old(self), seq![(LineKind::Json, record_key("warn"@, Some(msg@)))])
                && (final(self).lines@.last().record matches Some(r) && message_record(r, "warn"@, msg@)),
            !old(self).quiet && !old(self).json_mode ==> wrote(*final(self), *old(self), seq![(LineKind::Warn, msg@)]),
    {
        if self.quiet {
            proof {
                assert(line_views(self.lines@) =~= line_views(self.lines@) + Seq::<(LineKind, Seq<char>)>::empty());
            }
            return;
        }
        if self.json_mode {
            self.print_json("warn", Some(string_from(&chars_of(msg))), None);
        } else {
            self.push_line(LineKind::Warn, string_from(&chars_of(msg)));
        }
    }

    /// An error, even when quiet: a JSON record `error` in JSON mode; else
    /// the message after a cross, on the error stream.
    pub fn error(&mut self, msg: &str)
        ensures
            wrote(*final(self), *old(self), out_error(*old(self), msg@)),
            old(self).json_mode ==> wrote(*final(self), *old(self), seq![(LineKind::Json, record_key("error"@, Some(msg@)))])
                && (final(self).lines@.last().record matches Some(r) && message_record(r, "error"@, msg@)),
            !old(self).json_mode ==> wrote(*final(self), *old(self), seq![(LineKind::Error, msg@)]),
    {
        if self.json_mode {
            self.print_json("error", Some(string_from(&chars_of(msg))), None);
        } else {
            self.push_line(LineKind::Error, string_from(&chars_of(msg)));
        }
    }

    /// A verbose note, only when verbose and neither quiet nor in JSON mode.
    pub fn verbose_msg(&mut self, msg: &str)
        ensures
            wrote(*final(self), *old(self), out_verbose(*old(self), msg@)),
            old(self).verbose && !old(self).quiet && !old(self).json_mode ==> wrote(
                *final(self),
                *old(self),
                seq![(LineKind::Plain, "  [verbose] "@ + msg@)],
            ),
            !(old(self).verbose && !old(self).quiet && !old(self).json_mode) ==> wrote(*final(self), *old(self), Seq::empty()),
    {
        if self.verbose && !self.quiet && !self.json_mode {
            self.push_line(LineKind::Plain, concat("  [verbose] ", msg));
        } else {
            proof {
                assert(line_views(self.lines@) =~= line_views(self.lines@) + Seq::<(LineKind, Seq<char>)>::empty());
            }
        }
    }

    /// A heading: a blank line, the title, and a rule as long as the title
    /// (in bytes, at most 60); nothing when quiet or in JSON mode.
    pub fn heading(&mut self, msg: &str)
        ensures
            wrote(*final(self), *old(self), out_heading(*old(self), msg@)),
            old(self).quiet || old(self).json_mode ==> wrote(*final(self), *old(self), Seq::empty()),
            !old(self).quiet && !old(self).json_mode ==> wrote(*final(self), *old(self), heading_lines(msg@)),
    {
        if self.quiet || self.json_mode {
            proof {
                assert(line_views(self.lines@) =~= line_views(self.lines@) + Seq::<(LineKind, Seq<char>)>::empty());
            }
            return;
        }
        let ghost before = line_views(self.lines@);
        self.push_line(LineKind::Plain, String::new());
        self.push_line(LineKind::Heading, string_from(&chars_of(msg)));
        let n = rule_width_of(msg);
        let mut r = String::new();
        let mut i: usize = 0;
        while i < n
            invariant
                i <= n,
                r@ == rule(i as nat),
            decreases n - i,
        {
            push_char(&mut r, '\u{2500}');
            proof {
                assert(r@ =~= rule((i + 1) as nat));
            }
            i += 1;
        }
        self.push_line(LineKind::Plain, r);
        proof {
            assert(line_views(self.lines@) =~= before + heading_lines(msg@));
        }
    }

    /// A message indented by two spaces; nothing when quiet or in JSON mode.
    pub fn line(&mut self, msg: &str)
        ensures
            wrote(*final(self), *old(self), out_info(*old(self), msg@)),
            old(self).quiet || old(self).json_mode ==> wrote(*final(self), *old(self), Seq::empty()),
            !old(self).quiet && !old(self).json_mode ==> wrote(*final(self), *old(self), seq![(LineKind::Plain, "  "@ + msg@)]),
    {
        if self.quiet || self.json_mode {
            proof {
                assert(line_views(self.lines@) =~= line_views(self.lines@) + Seq::<(LineKind, Seq<char>)>::empty());
            }
            return;
        }
        self.push_line(LineKind::Plain, indented(msg));
    }

    /// An empty line, unless quiet or in JSON mode.
    pub fn blank(&mut self)
        ensures
            wrote(*final(self), *old(self), out_blank(*old(self))),
            old(self).quiet || old(self).json_mode ==> wrote(*final(self), *old(self), Seq::empty()),
            !old(self).quiet && !old(self).json_mode ==> wrote(*final(self), *old(self), seq![(LineKind::Plain, Seq::empty())]),
    {
        if !self.quiet && !self.json_mode {
            self.push_line(LineKind::Plain, String::new());
        } else {
            proof {
                assert(line_views(self.lines@) =~= line_views(self.lines@) + Seq::<(LineKind, Seq<char>)>::empty());
            }
        }
    }

    /// A progress note: never when captured, quiet or in JSON mode.
    pub fn progress(&mut self, msg: &str)
        ensures
            wrote(*final(self), *old(self), out_progress(*old(self), msg@)),
            old(self).captured || old(self).quiet || old(self).json_mode ==> wrote(*final(self), *old(self), Seq::empty()),
            !(old(self).captured || old(self).quiet || old(self).json_mode) ==> wrote(*final(self), *old(self), seq![(LineKind::Progress, msg@)]),
    {
        if self.captured || self.quiet || self.json_mode {
            proof {
                assert(line_views(self.lines@) =~= line_views(self.lines@) + Seq::<(LineKind, Seq<char>)>::empty());
            }
            return;
        }
        self.push_line(LineKind::Progress, string_from(&chars_of(msg)));
    }

    /// The end of a progress note: never when captured, quiet or in JSON mode.
    pub fn progress_done(&mut self)
        ensures
            wrote(*final(self), *old(self), out_progress_done(*old(self))),
            old(self).captured || old(self).quiet || old(self).json_mode ==> wrote(*final(self), *old(self), Seq::empty()),
            !(old(self).captured || old(self).quiet || old(self).json_mode) ==> wrote(*final(self), *old(self), seq![(LineKind::ProgressDone, Seq::empty())]),
    {
        if self.captured || self.quiet || self.json_mode {
            proof {
                assert(line_views(self.lines@) =~= line_views(self.lines@) + Seq::<(LineKind, Seq<char>)>::empty());
            }
            return;
        }
        self.push_line(LineKind::ProgressDone, String::new());
    }

    /// A JSON record with a command, an optional message and optional data.
    pub fn print_json(&mut self, command: &str, message: Option<String>, data: Option<JsonValue>)
        ensures
            wrote(
                *final(self),
                *old(self),
                seq![
                    (
                        LineKind::Json,
                        record_key(
                            command@,
                            match message {
                                Some(m) => Some(m@),
                                None => None,
                            },
                        ),
                    ),
                ],
            ),
            final(self).lines@.last().record matches Some(r) && r.command@ == command@ && r.message == message
                && r.data == data && r.files_scanned is None && r.files_changed is None && r.replacements is None
                && r.errors is None && r.skipped is None,
    {
        let record = JsonRecord {
            command: string_from(&chars_of(command)),
            message,
            files_scanned: None,
            files_changed: None,
            replacements: None,
            errors: None,
            skipped: None,
            data,
        };
        self.push_record(record);
    }

    /// The summary of a command, in JSON mode only.
    pub fn print_json_result(&mut self, result: ScanResult)
        ensures
            wrote(*final(self), *old(self), out_result(*old(self), result.command@)),
            !old(self).json_mode ==> wrote(*final(self), *old(self), Seq::empty()),
            old(self).json_mode ==> wrote(*final(self), *old(self), seq![(LineKind::Json, result.command@)]) && (final(self).lines@.last().record matches Some(r) && r.command@ == result.command@ && r.message is None
                && r.files_scanned == Some(result.files_scanned) && r.files_changed == result.files_changed
                && r.replacements == result.replacements && r.errors == result.errors && r.skipped == result.skipped
                && r.data == result.data),
    {
        if self.json_mode {
            let ScanResult { command, files_scanned, files_changed, replacements, errors, skipped, data } = result;
            let record = JsonRecord {
                command,
                message: None,
                files_scanned: Some(files_scanned),
                files_changed,
                replacements,
                errors,
                skipped,
                data,
            };
            self.push_record(record);
        } else {
            proof {
                assert(line_views(self.lines@) =~= line_views(self.lines@) + Seq::<(LineKind, Seq<char>)>::empty());
            }
        }
    }

    /// Moves the lines written so far into the capture, each as written
    /// without colour and followed by a newline; JSON records and progress
    /// notes are not text and are dropped.
    pub fn flush_into(&mut self, capture: &mut Capture)
        ensures
            final(capture).text@ == old(capture).text@ + rendered(line_views(old(self).lines@)),
            final(self).lines@.len() == 0,
            final(self).verbose == old(self).verbose,
            final(self).quiet == old(self).quiet,
            final(self).json_mode == old(self).json_mode,
            final(self).color == old(self).color,
            final(self).captured == old(self).captured,
    {
        let ghost lv = line_views(self.lines@);
        let mut i: usize = 0;
        let ghost start = capture.text@;
        while i < self.lines.len()
            invariant
                i <= self.lines.len(),
                lv == line_views(self.lines@),
                capture.text@ == start + rendered(lv.take(i as int)),
            decreases self.lines.len() - i,
        {
            let l = &self.lines[i];
            proof {
                assert(lv[i as int] == line_view(*l));
                assert(lv[i as int].0 == l.kind);
                assert(l.kind != LineKind::Json ==> lv[i as int] == (l.kind, l.text@));
                assert(lv.take(i + 1).drop_last() =~= lv.take(i as int));
            }
            match l.kind {
                LineKind::Json | LineKind::Progress | LineKind::ProgressDone => {},
                _ => {
                    let t = plain_text(l.kind, l.text.as_str());
                    push_all(&mut capture.text, &chars_of(t.as_str()));
                    push_char(&mut capture.text, '\n');
                },
            }
            proof {
                assert(capture.text@ =~= start + rendered(lv.take(i + 1)));
            }
            i += 1;
        }
        proof {
            assert(lv.take(lv.len() as int) =~= lv);
        }
        self.lines = Vec::new();
    }
}

/// The text of lines written without colour, one per line; JSON records and
/// progress notes leave no text.
pub open spec fn rendered(v: Seq<(LineKind, Seq<char>)>) -> Seq<char>
    decreases v.len(),
{
    if v.len() == 0 {
        Seq::empty()
    } else {
        let l = v.last();
        rendered(v.drop_last()) + match l.0 {
            LineKind::Json | LineKind::Progress | LineKind::ProgressDone => Seq::empty(),
            _ => spec_plain_text(l.0, l.1).push('\n'),
        }
    }
}

/// The text of a line written without colour.
pub fn plain_text(kind: LineKind, text: &str) -> (r: String)
    ensures
        r@ == spec_plain_text(kind, text@),
{
    match kind {
        LineKind::Success => concat("  \u{2713} ", text),
        LineKind::Warn => concat("  ! ", text),
        LineKind::Error => concat("  \u{2717} ", text),
        _ => string_from(&chars_of(text)),
    }
}

/// The number of UTF-8 bytes of a character.
fn char_width(c: char) -> (r: usize)
    ensures
        r as nat == utf8_width(c),
{
    let v = c as u32;
    if v < 0x80 {
        1
    } else if v < 0x800 {
        2
    } else if v < 0x10000 {
        3
    } else {
        4
    }
}

/// The width of the rule under a heading.
fn rule_width_of(msg: &str) -> (r: usize)
    ensures
        r as nat == rule_width(msg@),
{
    let cs = chars_of(msg);
    let mut n: usize = 0;
    let mut i: usize = 0;
    proof {
        assert(cs@.take(0) =~= Seq::<char>::empty());
    }
    while i < cs.len() && n < 60
        invariant
            i <= cs.len(),
            cs@ == msg@,
            n as nat == utf8_len(cs@.take(i as int)),
        decreases cs.len() - i,
    {
        proof {
            assert(cs@.take(i + 1).drop_last() =~= cs@.take(i as int));
        }
        n = n + char_width(cs[i]);
        i += 1;
    }
    proof {
        lemma_utf8_len_mono(cs@, i as int);
        if i == cs.len() {
            assert(cs@.take(i as int) =~= cs@);
        }
    }
    if n < 60 {
        n
    } else {
        60
    }
}

proof fn lemma_utf8_len_mono(s: Seq<char>, i: int)
    requires
        0 <= i <= s.len(),
    ensures
        utf8_len(s.take(i)) <= utf8_len(s),
    decreases s.len() - i,
{
    if i < s.len() {
        lemma_utf8_len_mono(s, i + 1);
        assert(s.take(i + 1).drop_last() =~= s.take(i));
        if i + 1 == s.len() {
            assert(s.take(i + 1) =~= s);
        }
    } else {
        assert(s.take(i) =~= s);
    }
}

impl Capture {
    /// The captured text, leaving the capture empty.
    pub fn take(&mut self) -> (r: String)
        ensures
            r@ == old(self).text@,
            final(self).text@.len() == 0,
    {
        let mut t = String::new();
        std::mem::swap(&mut t, &mut self.text);
        t
    }
}

} // verus!
