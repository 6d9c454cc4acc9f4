//! Direction-aware reconstruction of the final text from the recognized
//! lines. Lines stay in engine order; within a right-to-left line the words
//! are emitted in reverse order, each followed by a single space; a
//! left-to-right line is emitted with its trailing whitespace trimmed.
//! Every processed line ends with a newline.

use vstd::prelude::*;

use crate::chars::is_trim_ws;
use crate::chars::is_word_sep;
use crate::chars::push_char;
use crate::chars::trim_ws;
use crate::chars::word_sep;

verus! {

/// `s` with every trailing `is_trim_ws` character removed.
pub open spec fn trim_end_spec(s: Seq<char>) -> Seq<char>
    decreases s.len(),
{
    if s.len() == 0 {
        s
    } else if is_trim_ws(s.last()) {
        trim_end_spec(s.drop_last())
    } else {
        s
    }
}

/// The index of the first word separator in `s`, or `s.len()` if there is none.
pub open spec fn first_sep_at(s: Seq<char>) -> int
    decreases s.len(),
{
    if s.len() == 0 {
        0
    } else if is_word_sep(s.first()) {
        0
    } else {
        1 + first_sep_at(s.drop_first())
    }
}

proof fn lemma_first_sep_at_bounds(s: Seq<char>)
    ensures
        0 <= first_sep_at(s) <= s.len(),
        forall|i: int| 0 <= i < first_sep_at(s) ==> !is_word_sep(s[i]),
        first_sep_at(s) < s.len() ==> is_word_sep(s[first_sep_at(s)]),
    decreases s.len(),
{
    if s.len() == 0 {
    } else if is_word_sep(s.first()) {
    } else {
        lemma_first_sep_at_bounds(s.drop_first());
        assert(s[0] == s.first());
        assert forall|i: int| 0 <= i < first_sep_at(s) implies !is_word_sep(s[i]) by {
            if i > 0 {
                assert(s.drop_first()[i - 1] == s[i]);
            }
        }
        if first_sep_at(s) < s.len() {
            assert(s.drop_first()[first_sep_at(s.drop_first())] == s[first_sep_at(s)]);
        }
    }
}

/// `first_sep_at(s)` is the unique `k` with no separator before it and a
/// separator (or the end of `s`) at it.
proof fn lemma_first_sep_at_is(s: Seq<char>, k: int)
    requires
        0 <= k <= s.len(),
        forall|i: int| 0 <= i < k ==> !is_word_sep(s[i]),
        k < s.len() ==> is_word_sep(s[k]),
    ensures
        first_sep_at(s) == k,
    decreases k,
{
    if k == 0 {
        lemma_first_sep_at_bounds(s);
    } else {
        assert(!is_word_sep(s.first()));
        assert(forall|i: int| 0 <= i < k - 1 ==> s.drop_first()[i] == s[i + 1]);
        if k - 1 < s.drop_first().len() {
            assert(s.drop_first()[k - 1] == s[k]);
        }
        lemma_first_sep_at_is(s.drop_first(), k - 1);
    }
}

/// The whitespace-separated words of `s`, in order, empty words omitted.
pub open spec fn words_spec(s: Seq<char>) -> Seq<Seq<char>>
    decreases s.len(),
    via words_spec_decreases
{
    if s.len() == 0 {
        Seq::empty()
    } else if is_word_sep(s.first()) {
        words_spec(s.drop_first())
    } else {
        seq![s.take(first_sep_at(s))] + words_spec(s.skip(first_sep_at(s)))
    }
}

#[via_fn]
proof fn words_spec_decreases(s: Seq<char>) {
    lemma_first_sep_at_bounds(s);
}

/// The words of a right-to-left line laid out for reading: in reverse of
/// their stored order, each followed by one space.
pub open spec fn rtl_words_spec(ws: Seq<Seq<char>>) -> Seq<char>
    decreases ws.len(),
{
    if ws.len() == 0 {
        Seq::empty()
    } else {
        rtl_words_spec(ws.drop_first()) + ws.first() + seq![' ']
    }
}

/// One recognized line as it appears in the assembled text, newline excluded.
pub open spec fn line_out_spec(line: Seq<char>, is_rtl: bool) -> Seq<char> {
    if is_rtl {
        rtl_words_spec(words_spec(line))
    } else {
        trim_end_spec(line)
    }
}

/// The assembled text: each line processed by `line_out_spec` and closed
/// with a newline, lines concatenated in their original order.
pub open spec fn assemble_spec(lines: Seq<Seq<char>>, is_rtl: bool) -> Seq<char>
    decreases lines.len(),
{
    if lines.len() == 0 {
        Seq::empty()
    } else {
        assemble_spec(lines.drop_last(), is_rtl) + line_out_spec(lines.last(), is_rtl)
            + seq!['\n']
    }
}

/// Lines never trade places: the assembled text is exactly the per-line
/// outputs, each closed with a newline, concatenated in input order,
/// whichever direction is requested.
pub proof fn lemma_assemble_preserves_line_order(lines: Seq<Seq<char>>, is_rtl: bool)
    ensures
        assemble_spec(lines, is_rtl) == lines.map_values(
            |line: Seq<char>| line_out_spec(line, is_rtl) + seq!['\n'],
        ).flatten(),
    decreases lines.len(),
{
    let per_line = |line: Seq<char>| line_out_spec(line, is_rtl) + seq!['\n'];
    if lines.len() == 0 {
        assert(lines.map_values(per_line) =~= Seq::<Seq<char>>::empty());
        assert(Seq::<Seq<char>>::empty().flatten() =~= Seq::<char>::empty());
    } else {
        lemma_assemble_preserves_line_order(lines.drop_last(), is_rtl);
        assert(lines.map_values(per_line).drop_last() =~= lines.drop_last().map_values(per_line));
        assert(lines.map_values(per_line).last() == per_line(lines.last()));
        lines.map_values(per_line).lemma_flatten_and_flatten_alt_are_equivalent();
        lines.map_values(per_line).drop_last().lemma_flatten_and_flatten_alt_are_equivalent();
        assert(lines.map_values(per_line).flatten_alt() == lines.map_values(
            per_line,
        ).drop_last().flatten_alt() + lines.map_values(per_line).last());
        assert(assemble_spec(lines, is_rtl) =~= lines.map_values(per_line).flatten());
    }
}

/// The whitespace-separated words of `s`, in order.
pub fn split_ascii_words(s: &str) -> (words: Vec<String>)
    ensures
        words.deep_view() == words_spec(s@),
{
    let n: usize = s.unicode_len();
    let mut words: Vec<String> = Vec::new();
    let mut i: usize = 0;
    proof {
        assert(words.deep_view() =~= Seq::<Seq<char>>::empty());
        assert(s@.skip(0) =~= s@);
        assert(Seq::<Seq<char>>::empty() + words_spec(s@) =~= words_spec(s@));
    }
    while i < n
        invariant
            i <= n,
            n == s@.len(),
            words_spec(s@) == words.deep_view() + words_spec(s@.skip(i as int)),
        decreases n - i,
    {
        let c = s.get_char(i);
        if word_sep(c) {
            proof {
                assert(s@.skip(i as int).first() == s@[i as int]);
                assert(s@.skip(i as int).drop_first() =~= s@.skip(i as int + 1));
            }
            i = i + 1;
        } else {
            let mut j: usize = i + 1;
            while j < n && !word_sep(s.get_char(j))
                invariant
                    i < j <= n,
                    n == s@.len(),
                    forall|m: int| i <= m < j ==> !is_word_sep(s@[m]),
                decreases n - j,
            {
                j = j + 1;
            }
            let w = s.substring_char(i, j);
            let ghost old_words = words.deep_view();
            words.push(String::from_str(w));
            proof {
                let t = s@.skip(i as int);
                assert(forall|m: int| 0 <= m < j - i ==> t[m] == s@[m + i]);
                if j - i < t.len() {
                    assert(t[j - i] == s@[j as int]);
                }
                lemma_first_sep_at_is(t, j - i);
                assert(t.take(j - i) =~= s@.subrange(i as int, j as int));
                assert(t.skip(j - i) =~= s@.skip(j as int));
                assert(words_spec(t) == seq![w@] + words_spec(s@.skip(j as int)));
                assert(words.deep_view() =~= old_words.push(w@));
                assert(words.deep_view() + words_spec(s@.skip(j as int)) =~= old_words + (
                seq![w@] + words_spec(s@.skip(j as int))));
            }
            i = j;
        }
    }
    proof {
        assert(s@.skip(n as int) =~= Seq::<char>::empty());
        assert(words.deep_view() + Seq::<Seq<char>>::empty() =~= words.deep_view());
    }
    words
}

/// `s` with its trailing whitespace removed.
pub fn trim_line_end<'a>(s: &'a str) -> (t: &'a str)
    ensures
        t@ == trim_end_spec(s@),
{
    let n: usize = s.unicode_len();
    let mut k: usize = n;
    proof {
        assert(s@.take(n as int) =~= s@);
    }
    while k > 0 && trim_ws(s.get_char(k - 1))
        invariant
            k <= n,
            n == s@.len(),
            trim_end_spec(s@) == trim_end_spec(s@.take(k as int)),
        decreases k,
    {
        proof {
            assert(s@.take(k as int).last() == s@[k as int - 1]);
            assert(s@.take(k as int).drop_last() =~= s@.take(k as int - 1));
        }
        k = k - 1;
    }
    proof {
        if k > 0 {
            assert(s@.take(k as int).last() == s@[k as int - 1]);
        }
        assert(trim_end_spec(s@.take(k as int)) == s@.take(k as int));
    }
    s.substring_char(0, k)
}

/// Join the recognized lines into the final text: every line ends in a
/// newline; a right-to-left line carries its words in reverse order, each
/// followed by a space; a left-to-right line is trimmed of trailing
/// whitespace. Line order is preserved.
pub fn stringify_lines(lines: Vec<String>, is_rtl: bool) -> (text: String)
    ensures
        text@ == assemble_spec(lines.deep_view(), is_rtl),
{
    let ghost dv = lines.deep_view();
    let mut out = String::new();
    let mut li: usize = 0;
    while li < lines.len()
        invariant
            li <= lines.len(),
            dv == lines.deep_view(),
            dv.len() == lines.len(),
            out@ == assemble_spec(dv.take(li as int), is_rtl),
        decreases lines.len() - li,
    {
        let ghost out0 = out@;
        let line: &String = &lines[li];
        proof {
            assert(dv[li as int] == line@);
        }
        if is_rtl {
            let ws = split_ascii_words(line.as_str());
            let ghost wsd = ws.deep_view();
            let mut j: usize = ws.len();
            proof {
                assert(wsd.len() == ws.len());
                assert(wsd.skip(j as int) =~= Seq::<Seq<char>>::empty());
            }
            while j > 0
                invariant
                    j <= ws.len(),
                    wsd == ws.deep_view(),
                    wsd.len() == ws.len(),
                    out@ == out0 + rtl_words_spec(wsd.skip(j as int)),
                decreases j,
            {
                j = j - 1;
                out.append(ws[j].as_str());
                push_char(&mut out, ' ');
                proof {
                    assert(wsd.skip(j as int).first() == wsd[j as int]);
                    assert(wsd.skip(j as int).drop_first() =~= wsd.skip(j as int + 1));
                    assert(out@ =~= out0 + rtl_words_spec(wsd.skip(j as int)));
                }
            }
            proof {
                assert(wsd.skip(0) =~= wsd);
                assert(out@ == out0 + line_out_spec(line@, is_rtl));
            }
        } else {
            let t = trim_line_end(line.as_str());
            out.append(t);
        }
        push_char(&mut out, '\n');
        proof {
            assert(dv.take(li as int + 1).drop_last() =~= dv.take(li as int));
            assert(dv.take(li as int + 1).last() == dv[li as int]);
            assert(out@ =~= assemble_spec(dv.take(li as int), is_rtl) + line_out_spec(
                dv[li as int],
                is_rtl,
            ) + seq!['\n']);
        }
        li = li + 1;
    }
    proof {
        assert(dv.take(dv.len() as int) =~= dv);
    }
    out
}

} // verus!
