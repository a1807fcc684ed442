use vstd::prelude::*;

use vstd::string::{StrSliceExecFns, StringExecFns};

use crate::config::{ColorConfig, LogConfig, Rgb};

verus! {

/// A log record's severity, most severe first.
#[derive(Clone, Copy, Debug, PartialEq, Eq, Structural)]
pub enum LogLevel {
    /// A failure.
    Error,
    /// Something suspicious.
    Warn,
    /// Ordinary progress.
    Info,
    /// Diagnostic detail.
    Debug,
    /// The finest detail.
    Trace,
}

impl LogLevel {
    /// Severity as a number: errors lowest, trace highest; a record passes
    /// a filter level when its rank does not exceed the filter's.
    pub open spec fn rank_spec(self) -> int {
        match self {
            LogLevel::Error => 1,
            LogLevel::Warn => 2,
            LogLevel::Info => 3,
            LogLevel::Debug => 4,
            LogLevel::Trace => 5,
        }
    }

    /// Severity as a number.
    pub fn rank(&self) -> (r: u8)
        ensures
            r == self.rank_spec(),
    {
        match self {
            LogLevel::Error => 1,
            LogLevel::Warn => 2,
            LogLevel::Info => 3,
            LogLevel::Debug => 4,
            LogLevel::Trace => 5,
        }
    }

    /// The level's label as it appears in a line; the four-letter labels
    /// carry a trailing space so all levels print five columns wide.
    pub open spec fn label_spec(self) -> Seq<char> {
        match self {
            LogLevel::Error => "ERROR"@,
            LogLevel::Warn => "WARN "@,
            LogLevel::Info => "INFO "@,
            LogLevel::Debug => "DEBUG"@,
            LogLevel::Trace => "TRACE"@,
        }
    }

    /// The level's label.
    pub fn label(&self) -> (r: &'static str)
        ensures
            r@ == self.label_spec(),
    {
        match self {
            LogLevel::Error => "ERROR",
            LogLevel::Warn => "WARN ",
            LogLevel::Info => "INFO ",
            LogLevel::Debug => "DEBUG",
            LogLevel::Trace => "TRACE",
        }
    }
}

/// The styled form of a piece of text: the text wrapped in the escape
/// sequence for a bold, RGB-colored foreground. The rendering depends on
/// the text and the channels alone.
pub uninterp spec fn rgb_styled(text: Seq<char>, red: u8, green: u8, blue: u8) -> Seq<char>;

/// The terminal-styling boundary. Relies on `owo_colors::Style`
/// (`truecolor`, `bold`) and its `Styled` display wrapper, whose output is
/// a function of the style and the wrapped text only.
#[verifier::external_body]
fn styled_rgb(text: &str, red: u8, green: u8, blue: u8) -> (r: String)
    ensures
        r@ == rgb_styled(text@, red, green, blue),
{
    let style = owo_colors::Style::new().truecolor(red, green, blue).bold();
    format!("{}", style.style(text))
}

/// `n` spaces.
pub open spec fn spaces(n: nat) -> Seq<char>
    decreases n,
{
    if n == 0 {
        Seq::empty()
    } else {
        spaces((n - 1) as nat).push(' ')
    }
}

fn make_spaces(n: usize) -> (r: String)
    ensures
        r@ == spaces(n as nat),
{
    let mut out = String::new();
    let mut i: usize = 0;
    proof {
        reveal_strlit(" ");
    }
    while i < n
        invariant
            i <= n,
            out@ =~= spaces(i as nat),
            " "@ =~= seq![' '],
        decreases n - i,
    {
        out.append(" ");
        i = i + 1;
        proof {
            assert(out@ =~= spaces((i - 1) as nat).push(' '));
        }
    }
    out
}

/// Track the widest log target seen so far, so that lines align: reads the
/// running maximum, raises it to this target's width if that is wider, and
/// returns the maximum now in force.
pub fn max_target_width(max_width: &mut usize, target: &str) -> (r: usize)
    ensures
        *final(max_width) == if *old(max_width) < target@.len() {
            target@.len() as usize
        } else {
            *old(max_width)
        },
        r == *final(max_width),
{
    let len = target.unicode_len();
    if *max_width < len {
        *max_width = len;
        len
    } else {
        *max_width
    }
}

/// The expansion of a format string: `%l` becomes the (styled) level, `%t`
/// the (padded) target, `%m` the message; everything else passes through.
pub open spec fn fmt_expand(fmt: Seq<char>, lvl: Seq<char>, tgt: Seq<char>, msg: Seq<char>) -> Seq<
    char,
>
    decreases fmt.len(),
{
    if fmt.len() == 0 {
        Seq::empty()
    } else if fmt.len() >= 2 && fmt[0] == '%' && fmt[1] == 'l' {
        lvl + fmt_expand(fmt.skip(2), lvl, tgt, msg)
    } else if fmt.len() >= 2 && fmt[0] == '%' && fmt[1] == 't' {
        tgt + fmt_expand(fmt.skip(2), lvl, tgt, msg)
    } else if fmt.len() >= 2 && fmt[0] == '%' && fmt[1] == 'm' {
        msg + fmt_expand(fmt.skip(2), lvl, tgt, msg)
    } else {
        seq![fmt[0]] + fmt_expand(fmt.skip(1), lvl, tgt, msg)
    }
}

/// Expand a log line format: substitute the level for `%l`, the target for
/// `%t` and the message for `%m`, leaving all other characters as they are.
pub fn parse_format_string(fmt: &str, level: &str, target: &str, message: &str) -> (r: String)
    ensures
        r@ == fmt_expand(fmt@, level@, target@, message@),
{
    let ghost full = fmt_expand(fmt@, level@, target@, message@);
    let n = fmt.unicode_len();
    let mut out = String::new();
    let mut i: usize = 0;
    proof {
        assert(fmt@.skip(0) =~= fmt@);
    }
    while i < n
        invariant
            n == fmt@.len(),
            i <= n,
            out@ + fmt_expand(fmt@.skip(i as int), level@, target@, message@) =~= full,
        decreases n - i,
    {
        let ghost pre = out@;
        let ghost rest = fmt@.skip(i as int);
        let c = fmt.get_char(i);
        proof {
            assert(rest[0] == fmt@[i as int]);
        }
        if c == '%' && i + 1 < n {
            let c2 = fmt.get_char(i + 1);
            proof {
                assert(rest[1] == fmt@[i as int + 1]);
                assert(rest.skip(2) =~= fmt@.skip(i as int + 2));
            }
            if c2 == 'l' {
                out.append(level);
                i = i + 2;
                proof {
                    assert(out@ + fmt_expand(fmt@.skip(i as int), level@, target@, message@)
                        =~= pre + (level@ + fmt_expand(
                        fmt@.skip(i as int),
                        level@,
                        target@,
                        message@,
                    )));
                }
            } else if c2 == 't' {
                out.append(target);
                i = i + 2;
                proof {
                    assert(out@ + fmt_expand(fmt@.skip(i as int), level@, target@, message@)
                        =~= pre + (target@ + fmt_expand(
                        fmt@.skip(i as int),
                        level@,
                        target@,
                        message@,
                    )));
                }
            } else if c2 == 'm' {
                out.append(message);
                i = i + 2;
                proof {
                    assert(out@ + fmt_expand(fmt@.skip(i as int), level@, target@, message@)
                        =~= pre + (message@ + fmt_expand(
                        fmt@.skip(i as int),
                        level@,
                        target@,
                        message@,
                    )));
                }
            } else {
                let piece = fmt.substring_char(i, i + 1);
                out.append(piece);
                i = i + 1;
                proof {
                    assert(piece@ =~= seq![rest[0]]);
                    assert(rest.skip(1) =~= fmt@.skip(i as int));
                    assert(out@ + fmt_expand(fmt@.skip(i as int), level@, target@, message@)
                        =~= pre + (seq![rest[0]] + fmt_expand(
                        fmt@.skip(i as int),
                        level@,
                        target@,
                        message@,
                    )));
                }
            }
        } else {
            let piece = fmt.substring_char(i, i + 1);
            out.append(piece);
            i = i + 1;
            proof {
                assert(piece@ =~= seq![rest[0]]);
                assert(rest.skip(1) =~= fmt@.skip(i as int));
                assert(out@ + fmt_expand(fmt@.skip(i as int), level@, target@, message@) =~= pre
                    + (seq![rest[0]] + fmt_expand(fmt@.skip(i as int), level@, target@, message@)));
            }
        }
    }
    proof {
        assert(fmt@.skip(n as int) =~= Seq::<char>::empty());
        assert(out@ =~= out@ + fmt_expand(fmt@.skip(n as int), level@, target@, message@));
    }
    out
}

/// The foreground color configured for a level.
pub open spec fn color_of(colors: ColorConfig, level: LogLevel) -> Rgb {
    match level {
        LogLevel::Error => colors.error,
        LogLevel::Warn => colors.warn,
        LogLevel::Info => colors.info,
        LogLevel::Debug => colors.debug,
        LogLevel::Trace => colors.trace,
    }
}

/// The finished log line for one record: the configured format expanded
/// with the styled level label, the target padded to the widest target seen
/// so far, and the message.
pub open spec fn log_line(
    config: LogConfig,
    width: nat,
    level: LogLevel,
    target: Seq<char>,
    message: Seq<char>,
) -> Seq<char> {
    let c = color_of(config.colors, level);
    let styled = rgb_styled(level.label_spec(), c.red, c.green, c.blue);
    let pad = if width >= target.len() {
        (width - target.len()) as nat
    } else {
        0nat
    };
    fmt_expand(config.format@, styled, target + spaces(pad), message)
}

/// The log formatter: the formatting settings, the filter level, and the
/// widest target seen so far (for alignment).
#[derive(Debug)]
pub struct Logger {
    /// Formatting settings.
    pub config: LogConfig,
    /// Records above this level are dropped.
    pub max_level: LogLevel,
    /// The widest target seen so far.
    pub max_width: usize,
}

/// Build the log formatter from its configuration, letting everything
/// through; the shell installs it as the process logger and may tighten the
/// filter level from the environment.
pub fn init(config: LogConfig) -> (lg: Logger)
    ensures
        lg.config.colors == config.colors,
        lg.config.format@ == config.format@,
        lg.max_level == LogLevel::Trace,
        lg.max_width == 0,
{
    Logger { config, max_level: LogLevel::Trace, max_width: 0 }
}

impl Logger {
    /// Whether a record of this level passes the filter.
    pub fn enabled(&self, level: LogLevel) -> (r: bool)
        ensures
            r == (level.rank_spec() <= self.max_level.rank_spec()),
    {
        level.rank() <= self.max_level.rank()
    }

    /// Format one record: pick the level's color, style its label, pad the
    /// target to the widest seen so far, and expand the configured format.
    /// Returns the finished line, or nothing when the record is filtered
    /// out (then the width state is untouched).
    pub fn log(&mut self, level: LogLevel, target: &str, message: &str) -> (r: Option<String>)
        ensures
            final(self).config.colors == old(self).config.colors,
            final(self).config.format@ == old(self).config.format@,
            final(self).max_level == old(self).max_level,
            r is Some <==> level.rank_spec() <= old(self).max_level.rank_spec(),
            r is None ==> final(self).max_width == old(self).max_width,
            r matches Some(line) ==> {
                &&& final(self).max_width == if old(self).max_width < target@.len() {
                    target@.len() as usize
                } else {
                    old(self).max_width
                }
                &&& line@ == log_line(
                    old(self).config,
                    final(self).max_width as nat,
                    level,
                    target@,
                    message@,
                )
            },
    {
        if !self.enabled(level) {
            return None;
        }
        let width = max_target_width(&mut self.max_width, target);
        let pad = width - target.unicode_len();
        let padding = make_spaces(pad);
        let mut padded = String::from_str(target);
        padded.append(padding.as_str());
        let c = match level {
            LogLevel::Error => self.config.colors.error,
            LogLevel::Warn => self.config.colors.warn,
            LogLevel::Info => self.config.colors.info,
            LogLevel::Debug => self.config.colors.debug,
            LogLevel::Trace => self.config.colors.trace,
        };
        let styled = styled_rgb(level.label(), c.red, c.green, c.blue);
        let line = parse_format_string(
            self.config.format.as_str(),
            styled.as_str(),
            padded.as_str(),
            message,
        );
        Some(line)
    }
}

} // verus!
