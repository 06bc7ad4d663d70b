//! Joining lines into one text, and the facts about the result that the
//! guard's line-ending guarantees rest on.

use vstd::prelude::*;

verus! {

/// The lines joined with `sep` between consecutive lines: no leading or
/// trailing separator.
pub open spec fn join(lines: Seq<Seq<char>>, sep: Seq<char>) -> Seq<char>
    decreases lines.len(),
{
    if lines.len() == 0 {
        Seq::empty()
    } else if lines.len() == 1 {
        lines[0]
    } else {
        lines[0] + sep + join(lines.drop_first(), sep)
    }
}

/// `c` occurs nowhere in `s`.
pub open spec fn no_char(s: Seq<char>, c: char) -> bool {
    forall|i: int| 0 <= i < s.len() ==> s[i] != c
}

/// `c` occurs in none of the lines.
pub open spec fn lines_without(lines: Seq<Seq<char>>, c: char) -> bool {
    forall|i: int| 0 <= i < lines.len() ==> no_char(#[trigger] lines[i], c)
}

/// `needle` occurs in `hay` as a contiguous run.
pub open spec fn contains_seq(hay: Seq<char>, needle: Seq<char>) -> bool {
    exists|i: int|
        0 <= i && i + needle.len() <= hay.len() && #[trigger] hay.subrange(i, i + needle.len())
            == needle
}

/// Every carriage return is immediately followed by a line feed, and every
/// line feed immediately preceded by a carriage return.
pub open spec fn crlf_separated(s: Seq<char>) -> bool {
    &&& forall|i: int|
        0 <= i < s.len() && #[trigger] s[i] == '\r' ==> i + 1 < s.len() && s[i + 1] == '\n'
    &&& forall|i: int| 0 <= i < s.len() && #[trigger] s[i] == '\n' ==> 1 <= i && s[i - 1] == '\r'
}

/// A character absent from both halves is absent from their concatenation.
pub proof fn lemma_no_char_concat(a: Seq<char>, b: Seq<char>, c: char)
    requires
        no_char(a, c),
        no_char(b, c),
    ensures
        no_char(a + b, c),
{
    assert forall|i: int| 0 <= i < (a + b).len() implies (a + b)[i] != c by {
        if i < a.len() {
            assert((a + b)[i] == a[i]);
        } else {
            assert((a + b)[i] == b[i - a.len()]);
        }
    }
}

/// A run found in the right half is found in the concatenation.
pub proof fn lemma_contains_left_pad(a: Seq<char>, b: Seq<char>, t: Seq<char>)
    requires
        contains_seq(b, t),
    ensures
        contains_seq(a + b, t),
{
    let j = choose|j: int|
        0 <= j && j + t.len() <= b.len() && #[trigger] b.subrange(j, j + t.len()) == t;
    let k = a.len() + j;
    assert((a + b).subrange(k, k + t.len()) =~= b.subrange(j, j + t.len()));
}

/// A run found in the left half is found in the concatenation.
pub proof fn lemma_contains_right_pad(a: Seq<char>, b: Seq<char>, t: Seq<char>)
    requires
        contains_seq(a, t),
    ensures
        contains_seq(a + b, t),
{
    let j = choose|j: int|
        0 <= j && j + t.len() <= a.len() && #[trigger] a.subrange(j, j + t.len()) == t;
    assert((a + b).subrange(j, j + t.len()) =~= a.subrange(j, j + t.len()));
}

/// A needle that occurs in `body` at exactly one offset occurs in
/// `lit + body` at exactly that offset shifted, as long as the literal's
/// last character occurs nowhere in the needle: a match reaching into the
/// literal would have to cover that character.
pub proof fn lemma_unique_in_left_pad(lit: Seq<char>, body: Seq<char>, needle: Seq<char>, o: int)
    requires
        1 <= lit.len() <= needle.len(),
        no_char(needle, lit[lit.len() - 1]),
        forall|a: int|
            (0 <= a && a + needle.len() <= body.len() && #[trigger] body.subrange(
                a,
                a + needle.len(),
            ) == needle) <==> a == o,
    ensures
        forall|a: int|
            (0 <= a && a + needle.len() <= (lit + body).len() && #[trigger] (lit + body).subrange(
                a,
                a + needle.len(),
            ) == needle) <==> a == lit.len() + o,
{
    let whole = lit + body;
    let n = needle.len() as int;
    let ll = lit.len() as int;
    assert(body.subrange(o, o + n) == needle);
    assert(whole.subrange(ll + o, ll + o + n) =~= body.subrange(o, o + n));
    assert forall|a: int|
        0 <= a && a + n <= whole.len() && #[trigger] whole.subrange(a, a + n)
            == needle implies a == ll + o by {
        assert(forall|m: int| 0 <= m < n ==> #[trigger] needle[m] == whole[a + m]) by {
            assert(forall|m: int|
                0 <= m < n ==> whole.subrange(a, a + n)[m] == #[trigger] whole[a + m]);
        }
        if a < ll {
            assert(needle[ll - 1 - a] == whole[ll - 1]);
            assert(whole[ll - 1] == lit[ll - 1]);
            assert(false);
        } else {
            assert(body.subrange(a - ll, a - ll + n) =~= needle);
        }
    }
}

/// A needle that occurs in `body` at exactly one offset occurs in
/// `body + tail` at exactly that offset, as long as the tail is shorter
/// than the needle and its first character occurs nowhere in the needle.
pub proof fn lemma_unique_in_right_pad(body: Seq<char>, tail: Seq<char>, needle: Seq<char>, o: int)
    requires
        1 <= tail.len() < needle.len(),
        no_char(needle, tail[0]),
        forall|a: int|
            (0 <= a && a + needle.len() <= body.len() && #[trigger] body.subrange(
                a,
                a + needle.len(),
            ) == needle) <==> a == o,
    ensures
        forall|a: int|
            (0 <= a && a + needle.len() <= (body + tail).len() && #[trigger] (body + tail).subrange(
                a,
                a + needle.len(),
            ) == needle) <==> a == o,
{
    let whole = body + tail;
    let n = needle.len() as int;
    let bl = body.len() as int;
    assert(body.subrange(o, o + n) == needle);
    assert(whole.subrange(o, o + n) =~= body.subrange(o, o + n));
    assert forall|a: int|
        0 <= a && a + n <= whole.len() && #[trigger] whole.subrange(a, a + n)
            == needle implies a == o by {
        assert(forall|m: int| 0 <= m < n ==> #[trigger] needle[m] == whole[a + m]) by {
            assert(forall|m: int|
                0 <= m < n ==> whole.subrange(a, a + n)[m] == #[trigger] whole[a + m]);
        }
        if a + n <= bl {
            assert(body.subrange(a, a + n) =~= needle);
        } else {
            assert(a <= bl < a + n);
            assert(needle[bl - a] == whole[bl]);
            assert(whole[bl] == tail[0]);
            assert(false);
        }
    }
}

/// A run of a run of the text is a run of the text.
pub proof fn lemma_contains_trans(hay: Seq<char>, mid: Seq<char>, t: Seq<char>)
    requires
        contains_seq(hay, mid),
        contains_seq(mid, t),
    ensures
        contains_seq(hay, t),
{
    let i = choose|i: int|
        0 <= i && i + mid.len() <= hay.len() && #[trigger] hay.subrange(i, i + mid.len()) == mid;
    let j = choose|j: int|
        0 <= j && j + t.len() <= mid.len() && #[trigger] mid.subrange(j, j + t.len()) == t;
    let k = i + j;
    assert forall|m: int| 0 <= m < t.len() implies hay.subrange(k, k + t.len())[m] == t[m] by {
        assert(hay.subrange(i, i + mid.len())[j + m] == mid[j + m]);
        assert(mid.subrange(j, j + t.len())[m] == t[m]);
    }
    assert(hay.subrange(k, k + t.len()) =~= t);
}

/// Extending the joined prefix by one more line appends one separator and
/// that line.
pub proof fn lemma_join_take_succ(lines: Seq<Seq<char>>, sep: Seq<char>, i: int)
    requires
        1 <= i < lines.len(),
    ensures
        join(lines.take(i + 1), sep) == join(lines.take(i), sep) + sep + lines[i],
    decreases i,
{
    if i == 1 {
        assert(lines.take(2).drop_first() =~= seq![lines[1]]);
        assert(join(seq![lines[1]], sep) == lines[1]);
        assert(join(lines.take(1), sep) == lines.take(1)[0]);
        assert(join(lines.take(2), sep) =~= join(lines.take(1), sep) + sep + lines[1]);
    } else {
        lemma_join_take_succ(lines.drop_first(), sep, i - 1);
        assert(lines.take(i + 1).drop_first() =~= lines.drop_first().take(i));
        assert(lines.take(i).drop_first() =~= lines.drop_first().take(i - 1));
        assert(join(lines.take(i + 1), sep) =~= join(lines.take(i), sep) + sep + lines[i]);
    }
}

/// A character absent from every line and from the separator is absent from
/// the joined text.
pub proof fn lemma_join_no_char(lines: Seq<Seq<char>>, sep: Seq<char>, c: char)
    requires
        lines_without(lines, c),
        no_char(sep, c),
    ensures
        no_char(join(lines, sep), c),
    decreases lines.len(),
{
    if lines.len() <= 1 {
    } else {
        assert(no_char(lines[0], c));
        assert(lines_without(lines.drop_first(), c)) by {
            assert(forall|i: int|
                0 <= i < lines.drop_first().len() ==> #[trigger] lines.drop_first()[i] == lines[i + 1]);
        }
        lemma_join_no_char(lines.drop_first(), sep, c);
    }
}

/// When no line holds a carriage return or a line feed, joining with CRLF
/// leaves the two characters only as adjacent `\r\n` pairs.
pub proof fn lemma_join_crlf(lines: Seq<Seq<char>>)
    requires
        lines_without(lines, '\r'),
        lines_without(lines, '\n'),
    ensures
        crlf_separated(join(lines, seq!['\r', '\n'])),
    decreases lines.len(),
{
    let sep = seq!['\r', '\n'];
    if lines.len() <= 1 {
    } else {
        assert(no_char(lines[0], '\r'));
        assert(no_char(lines[0], '\n'));
        assert(lines_without(lines.drop_first(), '\r') && lines_without(
            lines.drop_first(),
            '\n',
        )) by {
            assert(forall|i: int|
                0 <= i < lines.drop_first().len() ==> #[trigger] lines.drop_first()[i] == lines[i + 1]);
        }
        lemma_join_crlf(lines.drop_first());
        let rest = join(lines.drop_first(), sep);
        let whole = join(lines, sep);
        let n0 = lines[0].len() as int;
        assert(whole =~= lines[0] + sep + rest);
        assert forall|i: int| 0 <= i < whole.len() && #[trigger] whole[i] == '\r' implies i + 1 < whole.len()
            && whole[i + 1] == '\n' by {
            if i < n0 {
                assert(whole[i] == lines[0][i]);
            } else if i == n0 {
                assert(whole[i + 1] == '\n');
            } else if i == n0 + 1 {
                assert(whole[i] == '\n');
            } else {
                assert(whole[i] == rest[i - n0 - 2]);
                assert(rest[i - n0 - 2] == '\r' ==> i - n0 - 1 < rest.len() && rest[i - n0 - 1]
                    == '\n');
            }
        }
        assert forall|i: int| 0 <= i < whole.len() && #[trigger] whole[i] == '\n' implies 1 <= i && whole[i
            - 1] == '\r' by {
            if i < n0 {
                assert(whole[i] == lines[0][i]);
            } else if i == n0 {
                assert(whole[i] == '\r');
            } else if i == n0 + 1 {
                assert(whole[i - 1] == '\r');
            } else {
                assert(whole[i] == rest[i - n0 - 2]);
                assert(rest[i - n0 - 2] == '\n' ==> 1 <= i - n0 - 2 && rest[i - n0 - 3] == '\r');
            }
        }
    }
}

/// Each line reappears as a contiguous run of the joined text.
pub proof fn lemma_join_contains_line(lines: Seq<Seq<char>>, sep: Seq<char>, i: int)
    requires
        0 <= i < lines.len(),
    ensures
        contains_seq(join(lines, sep), lines[i]),
    decreases lines.len(),
{
    let whole = join(lines, sep);
    if i == 0 {
        let k: int = 0;
        assert(whole.subrange(k, k + lines[0].len()) =~= lines[0]);
    } else {
        assert(lines.drop_first()[i - 1] == lines[i]);
        lemma_join_contains_line(lines.drop_first(), sep, i - 1);
        let rest = join(lines.drop_first(), sep);
        let off = (lines[0].len() + sep.len()) as int;
        let j = choose|j: int|
            0 <= j && j + lines[i].len() <= rest.len() && #[trigger] rest.subrange(
                j,
                j + lines[i].len(),
            ) == lines[i];
        assert(rest.subrange(j, j + lines[i].len()) == lines[i]);
        assert(whole =~= lines[0] + sep + rest);
        let k = off + j;
        assert(whole.subrange(k, k + lines[i].len()) =~= rest.subrange(j, j + lines[i].len()));
    }
}

/// Join the lines with the separator between consecutive lines.
pub fn join_lines(lines: &Vec<String>, sep: &str) -> (r: String)
    ensures
        r@ == join(lines.deep_view(), sep@),
{
    let ghost model = lines.deep_view();
    let mut out = String::new();
    if lines.len() == 0 {
        return out;
    }
    out.append(lines[0].as_str());
    assert(out@ =~= join(model.take(1), sep@));
    let mut i: usize = 1;
    while i < lines.len()
        invariant
            1 <= i <= lines.len(),
            model == lines.deep_view(),
            model.len() == lines.len(),
            out@ == join(model.take(i as int), sep@),
        decreases lines.len() - i,
    {
        out.append(sep);
        out.append(lines[i].as_str());
        proof {
            lemma_join_take_succ(model, sep@, i as int);
            assert(model[i as int] == lines[i as int]@);
        }
        i = i + 1;
    }
    assert(model.take(lines.len() as int) =~= model);
    out
}

} // verus!
