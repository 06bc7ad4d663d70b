//! Configuration of a guard generation run: target language, line-ending
//! style, and the full record of options that one invocation works from.

use vstd::prelude::*;

verus! {

/// Target-language adjustment applied to the guard block.
/// `Plain` adds nothing, `C` inserts a C-linkage compatibility block,
/// `Cxx` adds nothing beyond the base guard.
#[derive(Clone, Copy, Debug, PartialEq, Eq, Structural)]
pub enum Language {
    Plain,
    C,
    Cxx,
}

/// Requested line-ending style. `Auto` defers to the host convention.
#[derive(Clone, Copy, Debug, PartialEq, Eq, Structural)]
pub enum LineEnding {
    Auto,
    Lf,
    Crlf,
}

/// A resolved newline: the separator actually written between lines.
#[derive(Clone, Copy, Debug, PartialEq, Eq, Structural)]
pub enum Newline {
    Lf,
    Crlf,
}

/// The character sequence a resolved newline stands for.
pub open spec fn newline_text(n: Newline) -> Seq<char> {
    match n {
        Newline::Lf => seq!['\n'],
        Newline::Crlf => seq!['\r', '\n'],
    }
}

/// Which resolved newlines a requested style allows: explicit styles fix
/// the newline; `Auto` accepts whichever the host convention yields.
pub open spec fn newline_of_mode(mode: LineEnding, n: Newline) -> bool {
    match mode {
        LineEnding::Lf => n == Newline::Lf,
        LineEnding::Crlf => n == Newline::Crlf,
        LineEnding::Auto => true,
    }
}

/// Relies on std::path::MAIN_SEPARATOR: the host's primary path separator,
/// a backslash on Windows-family hosts. Which character comes back depends
/// on the machine, so nothing is promised of the result.
#[verifier::external_body]
fn host_path_separator() -> char {
    std::path::MAIN_SEPARATOR
}

/// Map a host's path separator to the newline convention it betokens:
/// CRLF exactly for the backslash of Windows-family hosts, LF for every
/// other separator.
pub fn newline_for_separator(sep: char) -> (n: Newline)
    ensures
        (n == Newline::Crlf) <==> (sep == '\\'),
{
    if sep == '\\' {
        Newline::Crlf
    } else {
        Newline::Lf
    }
}

/// Resolve a requested line-ending style to a concrete newline.
/// `Auto` picks CRLF on Windows-family hosts and LF elsewhere.
pub fn resolve_line_ending(mode: LineEnding) -> (n: Newline)
    ensures
        newline_of_mode(mode, n),
{
    match mode {
        LineEnding::Lf => Newline::Lf,
        LineEnding::Crlf => Newline::Crlf,
        LineEnding::Auto => newline_for_separator(host_path_separator()),
    }
}

/// The executable newline separator for a resolved newline.
pub fn newline_str(n: Newline) -> (r: &'static str)
    ensures
        r@ == newline_text(n),
{
    proof {
        reveal_strlit("\n");
        reveal_strlit("\r\n");
    }
    match n {
        Newline::Lf => "\n",
        Newline::Crlf => "\r\n",
    }
}

/// Everything one invocation works from, immutable once built.
#[derive(Debug)]
pub struct Config {
    /// Target file; the guard goes to standard output when absent.
    pub output_path: Option<String>,
    /// Whether an existing target file may be truncated and rewritten.
    pub overwrite: bool,
    /// Leading component of the guard symbol.
    pub prefix: String,
    /// Optional trailing component of the guard symbol.
    pub suffix: Option<String>,
    /// Target-language adjustment.
    pub language_mode: Language,
    /// Requested line-ending style.
    pub line_ending_mode: LineEnding,
}

impl Default for Config {
    /// The defaults of a bare invocation: print to standard output, never
    /// overwrite, prefix `UUID`, no suffix, no language adjustment, host
    /// line endings.
    fn default() -> (c: Config)
        ensures
            c.output_path is None,
            !c.overwrite,
            c.prefix@ == "UUID"@,
            c.suffix is None,
            c.language_mode == Language::Plain,
            c.line_ending_mode == LineEnding::Auto,
    {
        Config {
            output_path: None,
            overwrite: false,
            prefix: String::from_str("UUID"),
            suffix: None,
            language_mode: Language::Plain,
            line_ending_mode: LineEnding::Auto,
        }
    }
}

} // verus!
