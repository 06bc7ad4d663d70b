//! The guard generator's stated guarantees, as proof functions over the
//! same spec functions that the executable contracts use.

use vstd::prelude::*;

use crate::config::Language;
use crate::config::Newline;
use crate::config::newline_text;
use crate::guard::define_line;
use crate::guard::endif_line;
use crate::guard::full_guard_text;
use crate::guard::guard_lines;
use crate::guard::guard_token_text;
use crate::guard::ifndef_line;
use crate::guard::is_upper_hex_digit;
use crate::guard::separator_pos;
use crate::guard::symbol_text;
use crate::text::contains_seq;
use crate::text::crlf_separated;
use crate::text::join;
use crate::text::lemma_contains_left_pad;
use crate::text::lemma_contains_trans;
use crate::text::lemma_contains_right_pad;
use crate::text::lemma_join_contains_line;
use crate::text::lemma_join_crlf;
use crate::text::lemma_join_no_char;
use crate::text::lemma_no_char_concat;
use crate::text::lemma_unique_in_left_pad;
use crate::text::lemma_unique_in_right_pad;
use crate::text::lines_without;
use crate::text::no_char;

verus! {

/// A guard token holds underscores and uppercase hex digits only, so any
/// other character occurs nowhere in it.
pub proof fn lemma_token_no_char(t: Seq<char>, c: char)
    requires
        guard_token_text(t),
        c != '_',
        !is_upper_hex_digit(c),
    ensures
        no_char(t, c),
{
    assert forall|i: int| 0 <= i < t.len() implies t[i] != c by {
        if separator_pos(i) {
            assert(t[i] == '_');
        } else {
            assert(is_upper_hex_digit(t[i]));
        }
    }
}

/// The guard symbol is its parts joined with single underscores: the
/// prefix, one underscore, the token, and — when a suffix is present — one
/// more underscore and the suffix, with nothing else inserted.
pub proof fn lemma_symbol_shape(prefix: Seq<char>, token: Seq<char>, suffix: Option<Seq<char>>)
    ensures
        ({
            let sym = symbol_text(prefix, token, suffix);
            &&& sym.subrange(0, prefix.len() as int) == prefix
            &&& sym[prefix.len() as int] == '_'
            &&& sym.subrange(prefix.len() + 1 as int, prefix.len() + 1 + token.len() as int) == token
            &&& (suffix is None ==> sym.len() == prefix.len() + 1 + token.len())
            &&& (suffix matches Some(s) ==> {
                &&& sym.len() == prefix.len() + token.len() + s.len() + 2
                &&& sym[prefix.len() + 1 + token.len() as int] == '_'
                &&& sym.subrange(prefix.len() + token.len() + 2 as int, sym.len() as int) == s
            })
        }),
{
    let sym = symbol_text(prefix, token, suffix);
    let p = prefix.len() as int;
    let t = token.len() as int;
    match suffix {
        Some(s) => {
            assert(sym.subrange(0, p) =~= prefix);
            assert(sym.subrange(p + 1, p + 1 + t) =~= token);
            assert(sym.subrange(p + t + 2, sym.len() as int) =~= s);
        },
        None => {
            assert(sym.subrange(0, p) =~= prefix);
            assert(sym.subrange(p + 1, p + 1 + t) =~= token);
        },
    }
}

/// A character that is neither an underscore nor a character of one of the
/// parts occurs nowhere in the guard symbol.
pub proof fn lemma_symbol_no_char(
    prefix: Seq<char>,
    token: Seq<char>,
    suffix: Option<Seq<char>>,
    c: char,
)
    requires
        no_char(prefix, c),
        no_char(token, c),
        suffix matches Some(s) ==> no_char(s, c),
        c != '_',
    ensures
        no_char(symbol_text(prefix, token, suffix), c),
{
    let sym = symbol_text(prefix, token, suffix);
    assert(no_char(seq!['_'], c));
    match suffix {
        Some(s) => {
            lemma_no_char_concat(prefix, seq!['_'], c);
            lemma_no_char_concat(prefix + seq!['_'], token, c);
            lemma_no_char_concat(prefix + seq!['_'] + token, seq!['_'], c);
            lemma_no_char_concat(prefix + seq!['_'] + token + seq!['_'], s, c);
        },
        None => {
            lemma_no_char_concat(prefix, seq!['_'], c);
            lemma_no_char_concat(prefix + seq!['_'], token, c);
        },
    }
}

/// The three guard directives of the block — and they stand first, second
/// and second-to-last, whatever the language mode — carry one and the same
/// symbol, and the token stands in each of them.
pub proof fn lemma_token_in_directives(
    prefix: Seq<char>,
    token: Seq<char>,
    suffix: Option<Seq<char>>,
    lang: Language,
)
    ensures
        ({
            let sym = symbol_text(prefix, token, suffix);
            let lines = guard_lines(sym, lang);
            &&& lines.len() == (if lang == Language::C {
                13int
            } else {
                4int
            })
            &&& lines[0] == ifndef_line(sym)
            &&& lines[1] == define_line(sym)
            &&& lines[lines.len() - 2] == endif_line(sym)
            &&& lines[lines.len() - 1] == Seq::<char>::empty()
            &&& contains_seq(lines[0], token)
            &&& contains_seq(lines[1], token)
            &&& contains_seq(lines[lines.len() - 2], token)
        }),
{
    let sym = symbol_text(prefix, token, suffix);
    let lines = guard_lines(sym, lang);
    lemma_symbol_shape(prefix, token, suffix);
    let k = prefix.len() as int + 1;
    assert(sym.subrange(k, k + token.len()) == token);
    assert(contains_seq(sym, token));
    lemma_contains_left_pad("#ifndef "@, sym, token);
    lemma_contains_left_pad("#define "@, sym, token);
    lemma_contains_left_pad("#endif /* "@, sym, token);
    lemma_contains_right_pad("#endif /* "@ + sym, " */"@, token);
}

/// `s` holds no 36-character run in the shape of a guard token.
pub open spec fn no_token_run(s: Seq<char>) -> bool {
    forall|i: int|
        0 <= i && i + 36 <= s.len() ==> !guard_token_text(#[trigger] s.subrange(i, i + 36))
}

/// The opening 27 characters of `s` are laid out like the tail of a guard
/// token, the part after its first nine characters: underscores at indices
/// 4, 9 and 14, uppercase hex digits elsewhere.
pub open spec fn token_tail_shape(s: Seq<char>) -> bool {
    &&& s.len() >= 27
    &&& forall|j: int|
        0 <= j < 27 ==> (if j == 4 || j == 9 || j == 14 {
            #[trigger] s[j] == '_'
        } else {
            is_upper_hex_digit(s[j])
        })
}

/// The token stands in the guard symbol at exactly one place: right after
/// the prefix and its underscore. A match at any shifted overlap of the
/// token's own slot would force the token to repeat with a period that its
/// underscore positions rule out; the three conditions on prefix and
/// suffix exclude exactly the remaining inputs, those whose own text can
/// carry or complete a token.
pub proof fn lemma_token_unique_in_symbol(
    prefix: Seq<char>,
    token: Seq<char>,
    suffix: Option<Seq<char>>,
)
    requires
        guard_token_text(token),
        no_token_run(prefix),
        suffix matches Some(s) ==> no_token_run(s),
        suffix matches Some(s) ==> !token_tail_shape(s),
    ensures
        ({
            let sym = symbol_text(prefix, token, suffix);
            forall|a: int|
                (0 <= a && a + 36 <= sym.len() && #[trigger] sym.subrange(a, a + 36) == token)
                    <==> a == prefix.len() + 1
        }),
{
    let sym = symbol_text(prefix, token, suffix);
    let p = prefix.len() as int;
    lemma_symbol_shape(prefix, token, suffix);
    assert(sym.subrange(p + 1, p + 1 + 36) == token);
    assert(forall|i: int| 0 <= i < p ==> #[trigger] sym[i] == prefix[i]);
    assert(forall|j: int| 0 <= j < 36 ==> #[trigger] sym[p + 1 + j] == token[j]) by {
        assert(forall|j: int|
            0 <= j < 36 ==> sym.subrange(p + 1, p + 1 + 36)[j] == #[trigger] sym[p + 1 + j]);
    }
    assert(!is_upper_hex_digit('_'));
    assert forall|a: int|
        0 <= a && a + 36 <= sym.len() && #[trigger] sym.subrange(a, a + 36) == token implies a == p
        + 1 by {
        let run = sym.subrange(a, a + 36);
        assert(forall|m: int| 0 <= m < 36 ==> #[trigger] run[m] == sym[a + m]);
        assert(forall|m: int| 0 <= m < 36 ==> #[trigger] token[m] == sym[a + m]);
        if a + 36 <= p {
            // The run would lie inside the prefix, a token-shaped run of it.
            assert(prefix.subrange(a, a + 36) =~= token);
            assert(guard_token_text(prefix.subrange(a, a + 36)));
            assert(false);
        } else if a + 36 == p + 1 {
            // The run would end on the underscore after the prefix.
            assert(token[35] == sym[p]);
            assert(is_upper_hex_digit(token[35]));
            assert(false);
        } else if a < p + 1 {
            // The run would straddle the underscore after the prefix: the
            // underscore lands on a separator position of the token, and
            // the overlap with the token's own slot forces a period the
            // token's separators contradict.
            let s1 = p + 1 - a;
            assert(1 <= s1 < 36);
            assert(token[s1 - 1] == sym[p]);
            assert(token[s1 - 1] == '_');
            assert(separator_pos(s1 - 1));
            assert(s1 == 9 || s1 == 14 || s1 == 19 || s1 == 24);
            assert(token[s1 + 8] == sym[a + s1 + 8]);
            assert(sym[p + 1 + 8] == token[8]);
            assert(token[s1 + 8] == token[8]);
            assert(token[8] == '_');
            assert(is_upper_hex_digit(token[s1 + 8]));
            assert(false);
        } else if a > p + 1 {
            // The run would start inside the token's slot and extend past
            // it, so the symbol must go on: without a suffix the bounds
            // already fail, with one the underscore before the suffix
            // again lands on a separator position of the token.
            let s2 = a - (p + 1);
            assert(1 <= s2);
            match suffix {
                None => {
                    assert(sym.len() == p + 37);
                    assert(a + 36 > p + 37);
                    assert(false);
                },
                Some(s) => {
                    assert(sym[p + 37] == '_');
                    assert(forall|k: int| 0 <= k < s.len() ==> #[trigger] sym[p + 38 + k] == s[k])
                        by {
                        assert(forall|k: int|
                            0 <= k < s.len() ==> sym.subrange(p + 38, sym.len() as int)[k]
                                == #[trigger] sym[p + 38 + k]);
                    }
                    if a >= p + 38 {
                        // The run would lie inside the suffix.
                        assert(s.subrange(a - p - 38, a - p - 38 + 36) =~= token);
                        assert(guard_token_text(s.subrange(a - p - 38, a - p - 38 + 36)));
                        assert(false);
                    } else if a == p + 37 {
                        // The run would start on the underscore before the
                        // suffix.
                        assert(token[0] == sym[p + 37]);
                        assert(is_upper_hex_digit(token[0]));
                        assert(false);
                    } else {
                        assert(s2 < 36);
                        assert(a + (36 - s2) == p + 37);
                        assert(token[36 - s2] == sym[p + 37]);
                        assert(token[36 - s2] == '_');
                        assert(separator_pos(36 - s2));
                        assert(s2 == 28 || s2 == 23 || s2 == 18 || s2 == 13);
                        if s2 == 13 || s2 == 18 || s2 == 23 {
                            // Period the token's separators contradict.
                            assert(token[8] == sym[a + 8]);
                            assert(sym[a + 8] == sym[p + 1 + (s2 + 8)]);
                            assert(sym[p + 1 + (s2 + 8)] == token[s2 + 8]);
                            assert(token[8] == '_');
                            assert(is_upper_hex_digit(token[s2 + 8]));
                            assert(false);
                        } else {
                            // A shift of 28: the suffix would have to open
                            // with the tail of a token.
                            assert(s.len() >= 27);
                            assert(forall|j: int|
                                0 <= j < 27 ==> #[trigger] s[j] == token[9 + j]) by {
                                assert(forall|j: int|
                                    0 <= j < 27 ==> #[trigger] sym[p + 38 + j] == sym[a + (9
                                        + j)]);
                            }
                            assert(token_tail_shape(s)) by {
                                assert(forall|j: int|
                                    0 <= j < 27 ==> ((j == 4 || j == 9 || j == 14)
                                        <==> #[trigger] separator_pos(9 + j)));
                            }
                            assert(false);
                        }
                    }
                },
            }
        }
    }
}

/// In each of the three guard directives the token stands at exactly one
/// place: inside the line's single copy of the symbol, right after the
/// prefix and its underscore. Together with `lemma_token_in_directives`
/// this pins the token to one occurrence per directive line, the same
/// value in all three.
pub proof fn lemma_token_unique_in_directives(
    prefix: Seq<char>,
    token: Seq<char>,
    suffix: Option<Seq<char>>,
)
    requires
        guard_token_text(token),
        no_token_run(prefix),
        suffix matches Some(s) ==> no_token_run(s),
        suffix matches Some(s) ==> !token_tail_shape(s),
    ensures
        ({
            let sym = symbol_text(prefix, token, suffix);
            let o = prefix.len() + 9;
            let oe = prefix.len() + 11;
            &&& forall|a: int|
                (0 <= a && a + 36 <= ifndef_line(sym).len() && #[trigger] ifndef_line(
                    sym,
                ).subrange(a, a + 36) == token) <==> a == o
            &&& forall|a: int|
                (0 <= a && a + 36 <= define_line(sym).len() && #[trigger] define_line(
                    sym,
                ).subrange(a, a + 36) == token) <==> a == o
            &&& forall|a: int|
                (0 <= a && a + 36 <= endif_line(sym).len() && #[trigger] endif_line(sym).subrange(
                    a,
                    a + 36,
                ) == token) <==> a == oe
        }),
{
    reveal_strlit("#ifndef ");
    reveal_strlit("#define ");
    reveal_strlit("#endif /* ");
    reveal_strlit(" */");
    let sym = symbol_text(prefix, token, suffix);
    let p = prefix.len() as int;
    lemma_token_unique_in_symbol(prefix, token, suffix);
    lemma_token_no_char(token, ' ');
    assert("#ifndef "@["#ifndef "@.len() - 1] == ' ');
    assert("#define "@["#define "@.len() - 1] == ' ');
    assert("#endif /* "@["#endif /* "@.len() - 1] == ' ');
    assert(" */"@[0] == ' ');
    lemma_unique_in_left_pad("#ifndef "@, sym, token, p + 1);
    lemma_unique_in_left_pad("#define "@, sym, token, p + 1);
    lemma_unique_in_left_pad("#endif /* "@, sym, token, p + 1);
    lemma_unique_in_right_pad("#endif /* "@ + sym, " */"@, token, p + 11);
    assert(ifndef_line(sym) == "#ifndef "@ + sym);
    assert(define_line(sym) == "#define "@ + sym);
    assert(endif_line(sym) == ("#endif /* "@ + sym) + " */"@);
}

/// The rendered text carries all three guard directive lines for the one
/// symbol, and so the one token, whatever the language mode and newline.
pub proof fn lemma_token_in_text(
    prefix: Seq<char>,
    token: Seq<char>,
    suffix: Option<Seq<char>>,
    lang: Language,
    nl: Newline,
)
    ensures
        ({
            let sym = symbol_text(prefix, token, suffix);
            let text = full_guard_text(prefix, token, suffix, lang, nl);
            &&& contains_seq(text, ifndef_line(sym))
            &&& contains_seq(text, define_line(sym))
            &&& contains_seq(text, endif_line(sym))
            &&& contains_seq(text, token)
        }),
{
    let sym = symbol_text(prefix, token, suffix);
    let lines = guard_lines(sym, lang);
    let sep = newline_text(nl);
    let text = full_guard_text(prefix, token, suffix, lang, nl);
    lemma_token_in_directives(prefix, token, suffix, lang);
    lemma_join_contains_line(lines, sep, 0);
    lemma_join_contains_line(lines, sep, 1);
    lemma_join_contains_line(lines, sep, lines.len() - 2);
    lemma_contains_trans(text, ifndef_line(sym), token);
}

/// In C mode the rendered text holds the linkage block: the `__cplusplus`
/// conditionals stand in order around the opening and closing `extern "C"`
/// brackets, between the `#define` and the `#endif` line.
pub proof fn lemma_linkage_block_present(
    prefix: Seq<char>,
    token: Seq<char>,
    suffix: Option<Seq<char>>,
    nl: Newline,
)
    ensures
        ({
            let sym = symbol_text(prefix, token, suffix);
            let lines = guard_lines(sym, Language::C);
            &&& lines[1] == define_line(sym)
            &&& lines[3] == "#ifdef __cplusplus"@
            &&& lines[4] == "extern \"C\" {"@
            &&& lines[5] == "#endif /* __cplusplus */"@
            &&& lines[7] == "#ifdef __cplusplus"@
            &&& lines[8] == "} /* extern \"C\" */"@
            &&& lines[9] == "#endif /* __cplusplus */"@
            &&& lines[11] == endif_line(sym)
        }),
        contains_seq(
            full_guard_text(prefix, token, suffix, Language::C, nl),
            "#ifdef __cplusplus"@,
        ),
        contains_seq(full_guard_text(prefix, token, suffix, Language::C, nl), "extern \"C\" {"@),
        contains_seq(
            full_guard_text(prefix, token, suffix, Language::C, nl),
            "} /* extern \"C\" */"@,
        ),
{
    let sym = symbol_text(prefix, token, suffix);
    let lines = guard_lines(sym, Language::C);
    let sep = newline_text(nl);
    assert(lines[3] == "#ifdef __cplusplus"@);
    assert(lines[4] == "extern \"C\" {"@);
    assert(lines[8] == "} /* extern \"C\" */"@);
    lemma_join_contains_line(lines, sep, 3);
    lemma_join_contains_line(lines, sep, 4);
    lemma_join_contains_line(lines, sep, 8);
}

/// A hash sign stands in the guard line only at its head: elsewhere the
/// line holds literal text without one, or symbol characters.
proof fn lemma_hash_only_at_head(lit: Seq<char>, sym: Seq<char>, j: int)
    requires
        no_char(lit.drop_first(), '#'),
        no_char(sym, '#'),
        1 <= j < (lit + sym).len(),
    ensures
        (lit + sym)[j] != '#',
{
    if j < lit.len() {
        assert((lit + sym)[j] == lit.drop_first()[j - 1]);
    } else {
        assert((lit + sym)[j] == sym[j - lit.len()]);
    }
}

/// Outside C mode the rendered text holds none of the linkage block's
/// marks: no `__cplusplus` conditional and no `extern "C"` bracket, as long
/// as prefix and suffix bring no hash sign, quote or opening brace of their
/// own.
#[verifier::rlimit(50)]
pub proof fn lemma_no_linkage_block(
    prefix: Seq<char>,
    token: Seq<char>,
    suffix: Option<Seq<char>>,
    lang: Language,
    nl: Newline,
)
    requires
        lang != Language::C,
        guard_token_text(token),
        no_char(prefix, '#'),
        no_char(prefix, '"'),
        no_char(prefix, '{'),
        suffix matches Some(s) ==> no_char(s, '#') && no_char(s, '"') && no_char(s, '{'),
    ensures
        !contains_seq(full_guard_text(prefix, token, suffix, lang, nl), "#ifdef __cplusplus"@),
        !contains_seq(full_guard_text(prefix, token, suffix, lang, nl), "extern \"C\" {"@),
        !contains_seq(full_guard_text(prefix, token, suffix, lang, nl), "} /* extern \"C\" */"@),
{
    reveal_strlit("#ifndef ");
    reveal_strlit("#define ");
    reveal_strlit("#endif /* ");
    reveal_strlit(" */");
    reveal_strlit("#ifdef __cplusplus");
    reveal_strlit("extern \"C\" {");
    reveal_strlit("} /* extern \"C\" */");
    lemma_token_no_char(token, '#');
    lemma_token_no_char(token, '"');
    lemma_token_no_char(token, '{');
    lemma_symbol_no_char(prefix, token, suffix, '#');
    lemma_symbol_no_char(prefix, token, suffix, '"');
    lemma_symbol_no_char(prefix, token, suffix, '{');
    let sym = symbol_text(prefix, token, suffix);
    let lines = guard_lines(sym, lang);
    let sep = newline_text(nl);
    let text = full_guard_text(prefix, token, suffix, lang, nl);
    let l0 = ifndef_line(sym);
    let l1 = define_line(sym);
    let l2 = endif_line(sym);
    let e = Seq::<char>::empty();
    let n0 = l0.len() as int;
    let n1 = l1.len() as int;
    let n2 = l2.len() as int;
    let w = sep.len() as int;
    // Unfold the join of the four lines.
    assert(lines =~= seq![l0, l1, l2, e]);
    assert(seq![l0, l1, l2, e].drop_first() =~= seq![l1, l2, e]);
    assert(seq![l1, l2, e].drop_first() =~= seq![l2, e]);
    assert(seq![l2, e].drop_first() =~= seq![e]);
    assert(join(seq![e], sep) == e);
    assert(join(seq![l2, e], sep) == l2 + sep + e);
    assert(join(seq![l1, l2, e], sep) == l1 + sep + (l2 + sep + e));
    assert(text == l0 + sep + (l1 + sep + (l2 + sep + e)));
    assert(text.len() == n0 + w + n1 + w + n2 + w);
    let off1 = n0 + w;
    let off2 = n0 + w + n1 + w;
    // The newline separator holds none of the anchor characters.
    assert(no_char(sep, '#') && no_char(sep, '"')) by {
        match nl {
            Newline::Lf => assert(sep =~= seq!['\n']),
            Newline::Crlf => assert(sep =~= seq!['\r', '\n']),
        }
    }
    // No quote occurs anywhere in the text.
    assert(no_char(text, '"')) by {
        lemma_no_char_concat("#ifndef "@, sym, '"');
        lemma_no_char_concat("#define "@, sym, '"');
        lemma_no_char_concat("#endif /* "@, sym, '"');
        lemma_no_char_concat("#endif /* "@ + sym, " */"@, '"');
        lemma_no_char_concat(l2, sep, '"');
        lemma_no_char_concat(l2 + sep, e, '"');
        lemma_no_char_concat(l1, sep, '"');
        lemma_no_char_concat(l1 + sep, l2 + sep + e, '"');
        lemma_no_char_concat(l0, sep, '"');
        lemma_no_char_concat(l0 + sep, l1 + sep + (l2 + sep + e), '"');
    }
    // The two bracket patterns hold a quote, so neither can occur.
    if contains_seq(text, "extern \"C\" {"@) {
        let i = choose|i: int|
            0 <= i && i + "extern \"C\" {"@.len() <= text.len() && #[trigger] text.subrange(
                i,
                i + "extern \"C\" {"@.len(),
            ) == "extern \"C\" {"@;
        assert(text[i + 7] == "extern \"C\" {"@[7]);
        assert(text[i + 7] == '"');
        assert(false);
    }
    if contains_seq(text, "} /* extern \"C\" */"@) {
        let i = choose|i: int|
            0 <= i && i + "} /* extern \"C\" */"@.len() <= text.len() && #[trigger] text.subrange(
                i,
                i + "} /* extern \"C\" */"@.len(),
            ) == "} /* extern \"C\" */"@;
        assert(text[i + 12] == "} /* extern \"C\" */"@[12]);
        assert(text[i + 12] == '"');
        assert(false);
    }
    // The remaining pattern starts with a hash sign, and a hash sign stands
    // only at the head of the three directive lines, where the text then
    // disagrees with the pattern within its first four characters.
    if contains_seq(text, "#ifdef __cplusplus"@) {
        let pat = "#ifdef __cplusplus"@;
        let i = choose|i: int|
            0 <= i && i + pat.len() <= text.len() && #[trigger] text.subrange(i, i + pat.len())
                == pat;
        assert(text.subrange(i, i + pat.len()) == pat);
        assert(text[i] == pat[0]) by {
            assert(text.subrange(i, i + pat.len())[0] == pat[0]);
        }
        assert(text[i] == '#');
        assert(no_char("#ifndef "@.drop_first(), '#')) by {
            reveal_strlit("ifndef ");
            assert("#ifndef "@.drop_first() =~= "ifndef "@);
        }
        assert(no_char("#define "@.drop_first(), '#')) by {
            reveal_strlit("define ");
            assert("#define "@.drop_first() =~= "define "@);
        }
        assert(no_char("#endif /* "@.drop_first(), '#')) by {
            reveal_strlit("endif /* ");
            assert("#endif /* "@.drop_first() =~= "endif /* "@);
        }
        assert(l2 == ("#endif /* "@ + sym) + " */"@);
        if i < n0 {
            assert(text[i] == l0[i]);
            if 1 <= i {
                lemma_hash_only_at_head("#ifndef "@, sym, i);
                assert(false);
            }
            assert(i == 0);
            assert(text[3] == l0[3]);
            assert(l0[3] == "#ifndef "@[3]);
            assert(text[i + 3] == pat[3]) by {
                assert(text.subrange(i, i + pat.len())[3] == pat[3]);
            }
            assert(false);
        } else if i < off1 {
            assert(text[i] == sep[i - n0]);
            assert(false);
        } else if i < off1 + n1 {
            assert(text[i] == l1[i - off1]);
            if off1 + 1 <= i {
                lemma_hash_only_at_head("#define "@, sym, i - off1);
                assert(false);
            }
            assert(i == off1);
            assert(text[i + 1] == l1[1]);
            assert(l1[1] == "#define "@[1]);
            assert(text[i + 1] == pat[1]) by {
                assert(text.subrange(i, i + pat.len())[1] == pat[1]);
            }
            assert(false);
        } else if i < off2 {
            assert(text[i] == sep[i - off1 - n1]);
            assert(false);
        } else if i < off2 + n2 {
            assert(text[i] == l2[i - off2]);
            if off2 + 1 <= i {
                assert(no_char(sym + " */"@, '#')) by {
                    lemma_no_char_concat(sym, " */"@, '#');
                }
                assert(l2 =~= "#endif /* "@ + (sym + " */"@));
                lemma_hash_only_at_head("#endif /* "@, sym + " */"@, i - off2);
                assert(false);
            }
            assert(i == off2);
            assert(text[i + 1] == l2[1]);
            assert(l2[1] == "#endif /* "@[1]);
            assert(text[i + 1] == pat[1]) by {
                assert(text.subrange(i, i + pat.len())[1] == pat[1]);
            }
            assert(false);
        } else {
            assert(text[i] == sep[i - off2 - n2]);
            assert(false);
        }
    }
}

/// No line of the guard block holds a line-break character, as long as the
/// symbol holds none.
proof fn lemma_guard_lines_no_break(sym: Seq<char>, lang: Language)
    requires
        no_char(sym, '\r'),
        no_char(sym, '\n'),
    ensures
        lines_without(guard_lines(sym, lang), '\r'),
        lines_without(guard_lines(sym, lang), '\n'),
{
    reveal_strlit("#ifndef ");
    reveal_strlit("#define ");
    reveal_strlit("#endif /* ");
    reveal_strlit(" */");
    reveal_strlit("#ifdef __cplusplus");
    reveal_strlit("extern \"C\" {");
    reveal_strlit("#endif /* __cplusplus */");
    reveal_strlit("} /* extern \"C\" */");
    let lines = guard_lines(sym, lang);
    lemma_no_char_concat("#ifndef "@, sym, '\r');
    lemma_no_char_concat("#ifndef "@, sym, '\n');
    lemma_no_char_concat("#define "@, sym, '\r');
    lemma_no_char_concat("#define "@, sym, '\n');
    lemma_no_char_concat("#endif /* "@, sym, '\r');
    lemma_no_char_concat("#endif /* "@, sym, '\n');
    lemma_no_char_concat("#endif /* "@ + sym, " */"@, '\r');
    lemma_no_char_concat("#endif /* "@ + sym, " */"@, '\n');
    assert forall|i: int| 0 <= i < lines.len() implies no_char(#[trigger] lines[i], '\r')
        && no_char(lines[i], '\n') by {
        if lang == Language::C {
            if i == 0 {
                assert(lines[i] == ifndef_line(sym));
            } else if i == 1 {
                assert(lines[i] == define_line(sym));
            } else if i == 3 || i == 7 {
                assert(lines[i] == "#ifdef __cplusplus"@);
            } else if i == 4 {
                assert(lines[i] == "extern \"C\" {"@);
            } else if i == 5 || i == 9 {
                assert(lines[i] == "#endif /* __cplusplus */"@);
            } else if i == 8 {
                assert(lines[i] == "} /* extern \"C\" */"@);
            } else if i == 11 {
                assert(lines[i] == endif_line(sym));
            } else {
                assert(lines[i] == Seq::<char>::empty());
            }
        } else {
            if i == 0 {
                assert(lines[i] == ifndef_line(sym));
            } else if i == 1 {
                assert(lines[i] == define_line(sym));
            } else if i == 2 {
                assert(lines[i] == endif_line(sym));
            } else {
                assert(lines[i] == Seq::<char>::empty());
            }
        }
    }
}

/// Rendered with LF, the guard text holds no carriage return at all;
/// rendered with CRLF, carriage return and line feed occur only as adjacent
/// `\r\n` pairs. Holds as long as prefix and suffix bring no line-break
/// characters of their own.
pub proof fn lemma_line_endings(
    prefix: Seq<char>,
    token: Seq<char>,
    suffix: Option<Seq<char>>,
    lang: Language,
)
    requires
        no_char(prefix, '\r'),
        no_char(prefix, '\n'),
        suffix matches Some(s) ==> no_char(s, '\r') && no_char(s, '\n'),
        guard_token_text(token),
    ensures
        no_char(full_guard_text(prefix, token, suffix, lang, Newline::Lf), '\r'),
        crlf_separated(full_guard_text(prefix, token, suffix, lang, Newline::Crlf)),
{
    let sym = symbol_text(prefix, token, suffix);
    let lines = guard_lines(sym, lang);
    lemma_token_no_char(token, '\r');
    lemma_token_no_char(token, '\n');
    lemma_symbol_no_char(prefix, token, suffix, '\r');
    lemma_symbol_no_char(prefix, token, suffix, '\n');
    lemma_guard_lines_no_break(sym, lang);
    assert(no_char(seq!['\n'], '\r'));
    lemma_join_no_char(lines, seq!['\n'], '\r');
    lemma_join_crlf(lines);
}

} // verus!
