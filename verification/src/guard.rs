//! The guard generator: a fresh identifier folded into a guard token, the
//! guard symbol built around it, and the guard block rendered line by line.

use vstd::prelude::*;

use crate::config::{Language, LineEnding, Newline, newline_of_mode, newline_text, resolve_line_ending, newline_str};
use crate::text::{join, join_lines};

verus! {

/// The four positions at which the hyphenated identifier rendering holds a
/// separator (8-4-4-4-12 grouping).
pub open spec fn separator_pos(i: int) -> bool {
    i == 8 || i == 13 || i == 18 || i == 23
}

pub open spec fn is_lower_hex_digit(c: char) -> bool {
    ('0' <= c && c <= '9') || ('a' <= c && c <= 'f')
}

pub open spec fn is_upper_hex_digit(c: char) -> bool {
    ('0' <= c && c <= '9') || ('A' <= c && c <= 'F')
}

/// The canonical rendering of a 128-bit identifier: 36 characters, lowercase
/// hex digits with hyphens after the 8th, 12th, 16th and 20th digit.
pub open spec fn raw_uuid_text(s: Seq<char>) -> bool {
    &&& s.len() == 36
    &&& forall|i: int|
        0 <= i < 36 ==> (if separator_pos(i) {
            #[trigger] s[i] == '-'
        } else {
            is_lower_hex_digit(s[i])
        })
}

/// A guard token: the identifier rendering uppercased with hyphens replaced
/// by underscores.
pub open spec fn guard_token_text(s: Seq<char>) -> bool {
    &&& s.len() == 36
    &&& forall|i: int|
        0 <= i < 36 ==> (if separator_pos(i) {
            #[trigger] s[i] == '_'
        } else {
            is_upper_hex_digit(s[i])
        })
}

/// How one character of the identifier rendering is folded for use in a
/// guard symbol: hyphens become underscores, lowercase hex letters become
/// uppercase, everything else stays.
pub open spec fn fold_char(c: char) -> char {
    if c == '-' {
        '_'
    } else if c == 'a' {
        'A'
    } else if c == 'b' {
        'B'
    } else if c == 'c' {
        'C'
    } else if c == 'd' {
        'D'
    } else if c == 'e' {
        'E'
    } else if c == 'f' {
        'F'
    } else {
        c
    }
}

/// The identifier rendering folded character by character.
pub open spec fn folded_token(s: Seq<char>) -> Seq<char> {
    s.map(|_i: int, c: char| fold_char(c))
}

/// Folding a canonical identifier rendering yields a guard token.
pub proof fn lemma_folded_token_shape(s: Seq<char>)
    requires
        raw_uuid_text(s),
    ensures
        guard_token_text(folded_token(s)),
{
    assert forall|i: int| 0 <= i < 36 implies (if separator_pos(i) {
        folded_token(s)[i] == '_'
    } else {
        is_upper_hex_digit(folded_token(s)[i])
    }) by {
        assert(folded_token(s)[i] == fold_char(s[i]));
        if separator_pos(i) {
            assert(s[i] == '-');
        } else {
            assert(is_lower_hex_digit(s[i]));
        }
    }
}

/// Relies on uuid7::uuid7 and the Display rendering of uuid7::Uuid (through
/// Uuid::encode): a fresh time-ordered identifier rendered as 36 characters,
/// lowercase hexadecimal digits grouped 8-4-4-4-12 with hyphens between the
/// groups. The value itself depends on the clock and on randomness, so only
/// the shape is stated.
#[verifier::external_body]
fn fresh_uuid_text() -> (r: String)
    ensures
        raw_uuid_text(r@),
{
    uuid7::uuid7().to_string()
}

/// Relies on String::push: appends the one character at the end.
#[verifier::external_body]
fn push_char(s: &mut String, c: char)
    ensures
        final(s)@ == old(s)@.push(c),
{
    s.push(c);
}

/// Fold one character as `fold_char` says.
fn fold_char_exec(c: char) -> (r: char)
    ensures
        r == fold_char(c),
{
    if c == '-' {
        '_'
    } else if c == 'a' {
        'A'
    } else if c == 'b' {
        'B'
    } else if c == 'c' {
        'C'
    } else if c == 'd' {
        'D'
    } else if c == 'e' {
        'E'
    } else if c == 'f' {
        'F'
    } else {
        c
    }
}

/// Fold a rendered identifier into guard-symbol form, character by
/// character.
pub fn fold_token(raw: &str) -> (r: String)
    ensures
        r@ == folded_token(raw@),
{
    let n = raw.unicode_len();
    let mut out = String::new();
    let mut i: usize = 0;
    while i < n
        invariant
            0 <= i <= n,
            n == raw@.len(),
            out@ == folded_token(raw@.take(i as int)),
        decreases n - i,
    {
        let c = raw.get_char(i);
        let f = fold_char_exec(c);
        push_char(&mut out, f);
        proof {
            assert(folded_token(raw@.take(i + 1)) =~= folded_token(raw@.take(i as int)).push(
                fold_char(raw@[i as int]),
            ));
        }
        i = i + 1;
    }
    proof {
        assert(raw@.take(n as int) =~= raw@);
    }
    out
}

/// The guard symbol: prefix, token and, when present, suffix, joined with
/// single underscores and nothing else.
pub open spec fn symbol_text(prefix: Seq<char>, token: Seq<char>, suffix: Option<Seq<char>>) -> Seq<
    char,
> {
    match suffix {
        Some(s) => prefix + seq!['_'] + token + seq!['_'] + s,
        None => prefix + seq!['_'] + token,
    }
}

/// Build the guard symbol from its parts.
pub fn build_symbol(prefix: &str, token: &str, suffix: &Option<String>) -> (r: String)
    ensures
        r@ == symbol_text(prefix@, token@, suffix.deep_view()),
{
    proof {
        reveal_strlit("_");
    }
    let mut sym = String::new();
    sym.append(prefix);
    sym.append("_");
    sym.append(token);
    match suffix {
        Some(sfx) => {
            sym.append("_");
            sym.append(sfx.as_str());
            proof {
                assert(sym@ =~= symbol_text(prefix@, token@, suffix.deep_view()));
            }
        },
        None => {
            proof {
                assert(sym@ =~= symbol_text(prefix@, token@, suffix.deep_view()));
            }
        },
    }
    sym
}

pub open spec fn ifndef_line(sym: Seq<char>) -> Seq<char> {
    "#ifndef "@ + sym
}

pub open spec fn define_line(sym: Seq<char>) -> Seq<char> {
    "#define "@ + sym
}

pub open spec fn endif_line(sym: Seq<char>) -> Seq<char> {
    "#endif /* "@ + sym + " */"@
}

/// The C-linkage compatibility block inserted in `Language::C` mode: an
/// opening `extern "C"` bracket and its closing counterpart, each wrapped in
/// an `__cplusplus` conditional, with blank lines around them.
pub open spec fn linkage_block_lines() -> Seq<Seq<char>> {
    seq![
        Seq::<char>::empty(),
        "#ifdef __cplusplus"@,
        "extern \"C\" {"@,
        "#endif /* __cplusplus */"@,
        Seq::<char>::empty(),
        "#ifdef __cplusplus"@,
        "} /* extern \"C\" */"@,
        "#endif /* __cplusplus */"@,
        Seq::<char>::empty(),
    ]
}

/// The lines of the guard block for one symbol: the `#ifndef` / `#define`
/// pair, in C mode the linkage block, then the `#endif` line and one
/// trailing empty line.
pub open spec fn guard_lines(sym: Seq<char>, lang: Language) -> Seq<Seq<char>> {
    let head = seq![ifndef_line(sym), define_line(sym)];
    let tail = seq![endif_line(sym), Seq::<char>::empty()];
    if lang == Language::C {
        head + linkage_block_lines() + tail
    } else {
        head + tail
    }
}

/// The full guard text: the guard lines for the symbol built from prefix,
/// token and suffix, joined with the resolved newline.
pub open spec fn full_guard_text(
    prefix: Seq<char>,
    token: Seq<char>,
    suffix: Option<Seq<char>>,
    lang: Language,
    nl: Newline,
) -> Seq<char> {
    join(guard_lines(symbol_text(prefix, token, suffix), lang), newline_text(nl))
}

/// Build the guard lines for a symbol.
fn build_guard_lines(sym: &str, lang: Language) -> (r: Vec<String>)
    ensures
        r.deep_view() == guard_lines(sym@, lang),
{
    proof {
        reveal_strlit("#ifndef ");
        reveal_strlit("#define ");
        reveal_strlit("#endif /* ");
        reveal_strlit(" */");
        reveal_strlit("");
        reveal_strlit("#ifdef __cplusplus");
        reveal_strlit("extern \"C\" {");
        reveal_strlit("#endif /* __cplusplus */");
        reveal_strlit("} /* extern \"C\" */");
    }
    let mut lines: Vec<String> = Vec::new();
    let mut ifndef = String::from_str("#ifndef ");
    ifndef.append(sym);
    lines.push(ifndef);
    let mut define = String::from_str("#define ");
    define.append(sym);
    lines.push(define);
    if matches!(lang, Language::C) {
        lines.push(String::from_str(""));
        lines.push(String::from_str("#ifdef __cplusplus"));
        lines.push(String::from_str("extern \"C\" {"));
        lines.push(String::from_str("#endif /* __cplusplus */"));
        lines.push(String::from_str(""));
        lines.push(String::from_str("#ifdef __cplusplus"));
        lines.push(String::from_str("} /* extern \"C\" */"));
        lines.push(String::from_str("#endif /* __cplusplus */"));
        lines.push(String::from_str(""));
    }
    let mut endif = String::from_str("#endif /* ");
    endif.append(sym);
    endif.append(" */");
    lines.push(endif);
    lines.push(String::from_str(""));
    proof {
        assert(lines.deep_view() =~~= guard_lines(sym@, lang));
    }
    lines
}

/// Render the guard block around a given token. Deterministic: the result
/// is a function of the arguments alone.
pub fn render_guard(
    prefix: &str,
    token: &str,
    suffix: &Option<String>,
    lang: Language,
    nl: Newline,
) -> (r: String)
    ensures
        r@ == full_guard_text(prefix@, token@, suffix.deep_view(), lang, nl),
{
    let sym = build_symbol(prefix, token, suffix);
    let lines = build_guard_lines(sym.as_str(), lang);
    let sep = newline_str(nl);
    join_lines(&lines, sep)
}

/// Generate a complete guard block around a fresh identifier.
///
/// The token is fresh on every call, so the result is pinned down only up
/// to the token (and, under `LineEnding::Auto`, up to the host's newline):
/// some guard token and some allowed newline render exactly this text.
pub fn generate_guard(
    prefix: String,
    suffix: Option<String>,
    x: Language,
    line_ending: LineEnding,
) -> (r: String)
    ensures
        exists|t: Seq<char>, n: Newline|
            guard_token_text(t) && newline_of_mode(line_ending, n) && r@ == #[trigger] full_guard_text(
                prefix@,
                t,
                suffix.deep_view(),
                x,
                n,
            ),
{
    let raw = fresh_uuid_text();
    let token = fold_token(raw.as_str());
    proof {
        lemma_folded_token_shape(raw@);
    }
    let n = resolve_line_ending(line_ending);
    let r = render_guard(prefix.as_str(), token.as_str(), &suffix, x, n);
    proof {
        assert(guard_token_text(token@) && newline_of_mode(line_ending, n) && r@
            == full_guard_text(prefix@, token@, suffix.deep_view(), x, n));
    }
    r
}

} // verus!
