//! Rendering of decoded lyrics as LRC text.
//!
//! Each lyric line becomes `[MM:SS.mmm]text`, from its start time and its
//! display text exactly as decoded; lines are joined with a single
//! newline between them, with no trailing newline, in input order.

use vstd::prelude::*;
use vstd::string::StringExecFns;

use crate::lyrics::{LineView, Lyrics};
use crate::timefmt::{format_timestamp, lrc_timestamp};

verus! {

broadcast use vstd::string::group_string_axioms;

/// One rendered lyric line: the LRC tag of its start time, then its text.
pub open spec fn render_line(l: LineView) -> Seq<char> {
    lrc_timestamp(l.start_time_ms) + l.words
}

/// The rendered document: lines joined with a newline between them.
pub open spec fn render_lrc(lines: Seq<LineView>) -> Seq<char>
    decreases lines.len(),
{
    if lines.len() == 0 {
        Seq::empty()
    } else if lines.len() == 1 {
        render_line(lines[0])
    } else {
        render_line(lines[0]) + seq!['\n'] + render_lrc(lines.drop_first())
    }
}

proof fn lemma_render_push(s: Seq<LineView>, x: LineView)
    requires
        s.len() > 0,
    ensures
        render_lrc(s.push(x)) == render_lrc(s) + seq!['\n'] + render_line(x),
    decreases s.len(),
{
    let p = s.push(x);
    assert(p[0] == s[0]);
    if s.len() == 1 {
        assert(p.drop_first() =~= seq![x]);
        assert(render_lrc(seq![x]) == render_line(x));
    } else {
        assert(p.drop_first() =~= s.drop_first().push(x));
        lemma_render_push(s.drop_first(), x);
        assert(render_line(s[0]) + seq!['\n'] + (render_lrc(s.drop_first()) + seq!['\n']
            + render_line(x)) =~= (render_line(s[0]) + seq!['\n'] + render_lrc(s.drop_first()))
            + seq!['\n'] + render_line(x));
    }
}

/// Render the LRC text of a decoded lyrics payload.
pub fn format_lrc(lyrics: &Lyrics) -> (r: String)
    ensures
        r@ == render_lrc(lyrics@.lines),
{
    let mut out = String::new();
    if lyrics.lines.len() == 0 {
        proof {
            assert(out@ =~= render_lrc(lyrics@.lines));
        }
        return out;
    }
    let ts = format_timestamp(lyrics.lines[0].start_time_ms);
    out.append(ts.as_str());
    out.append(lyrics.lines[0].words.as_str());
    proof {
        assert(lyrics@.lines[0] == lyrics.lines@[0]@);
        assert(out@ =~= render_line(lyrics@.lines[0]));
        assert(lyrics@.lines.subrange(0, 1)[0] == lyrics@.lines[0]);
        assert(out@ == render_lrc(lyrics@.lines.subrange(0, 1)));
    }
    let mut i: usize = 1;
    while i < lyrics.lines.len()
        invariant
            1 <= i <= lyrics.lines.len(),
            lyrics.lines@.len() == lyrics@.lines.len(),
            out@ == render_lrc(lyrics@.lines.subrange(0, i as int)),
        decreases lyrics.lines.len() - i,
    {
        proof {
            reveal_strlit("\n");
            assert("\n"@ =~= seq!['\n']);
        }
        out.append("\n");
        let ts_i = format_timestamp(lyrics.lines[i].start_time_ms);
        out.append(ts_i.as_str());
        out.append(lyrics.lines[i].words.as_str());
        proof {
            let lv = lyrics@.lines;
            assert(lv[i as int] == lyrics.lines@[i as int]@);
            lemma_render_push(lv.subrange(0, i as int), lv[i as int]);
            assert(lv.subrange(0, i as int).push(lv[i as int]) =~= lv.subrange(0, i as int + 1));
            assert(out@ =~= render_lrc(lv.subrange(0, i as int)) + seq!['\n'] + render_line(
                lv[i as int],
            ));
        }
        i += 1;
    }
    proof {
        assert(lyrics@.lines.subrange(0, lyrics@.lines.len() as int) =~= lyrics@.lines);
    }
    out
}

/// Where the first newline of `s` stands; `s.len()` where there is none.
pub open spec fn first_nl(s: Seq<char>) -> int
    decreases s.len(),
{
    if s.len() == 0 {
        0
    } else if s[0] == '\n' {
        0
    } else {
        1 + first_nl(s.drop_first())
    }
}

proof fn lemma_first_nl_bounds(s: Seq<char>)
    ensures
        0 <= first_nl(s) <= s.len(),
    decreases s.len(),
{
    if s.len() > 0 && s[0] != '\n' {
        lemma_first_nl_bounds(s.drop_first());
    }
}

/// The segments of `s` between its newlines: the output lines of a text.
pub open spec fn split_nl(s: Seq<char>) -> Seq<Seq<char>>
    decreases s.len(),
    via split_nl_decreases
{
    if first_nl(s) >= s.len() {
        seq![s]
    } else {
        seq![s.subrange(0, first_nl(s))] + split_nl(s.subrange(first_nl(s) + 1, s.len() as int))
    }
}

#[via_fn]
proof fn split_nl_decreases(s: Seq<char>) {
    lemma_first_nl_bounds(s);
}

proof fn lemma_first_nl_concat(a: Seq<char>, b: Seq<char>)
    requires
        forall|j: int| 0 <= j < a.len() ==> a[j] != '\n',
    ensures
        first_nl(a + b) == a.len() + first_nl(b),
    decreases a.len(),
{
    if a.len() == 0 {
        assert(a + b =~= b);
    } else {
        assert((a + b)[0] == a[0]);
        assert((a + b).drop_first() =~= a.drop_first() + b);
        assert forall|j: int| 0 <= j < a.drop_first().len() implies a.drop_first()[j] != '\n' by {
            assert(a.drop_first()[j] == a[j + 1]);
        }
        lemma_first_nl_concat(a.drop_first(), b);
    }
}

proof fn lemma_split_single(a: Seq<char>)
    requires
        forall|j: int| 0 <= j < a.len() ==> a[j] != '\n',
    ensures
        split_nl(a) == seq![a],
{
    lemma_first_nl_concat(a, Seq::empty());
    assert(a + Seq::<char>::empty() =~= a);
}

proof fn lemma_split_glue(a: Seq<char>, rest: Seq<char>)
    requires
        forall|j: int| 0 <= j < a.len() ==> a[j] != '\n',
    ensures
        split_nl(a + seq!['\n'] + rest) == seq![a] + split_nl(rest),
{
    let w = a + seq!['\n'] + rest;
    assert(w =~= a + (seq!['\n'] + rest));
    assert((seq!['\n'] + rest)[0] == '\n');
    lemma_first_nl_concat(a, seq!['\n'] + rest);
    assert(first_nl(w) == a.len());
    assert(w.subrange(0, a.len() as int) =~= a);
    assert(w.subrange(a.len() as int + 1, w.len() as int) =~= rest);
}

proof fn lemma_render_line_no_nl(l: LineView)
    requires
        !l.words.contains('\n'),
    ensures
        forall|j: int| 0 <= j < render_line(l).len() ==> #[trigger] render_line(l)[j] != '\n',
        render_line(l)[0] == '[',
{
    let t = lrc_timestamp(l.start_time_ms);
    assert(t.len() == 11);
    assert forall|j: int| 0 <= j < render_line(l).len() implies #[trigger] render_line(l)[j]
        != '\n' by {
        if j < 11 {
            assert(render_line(l)[j] == t[j]);
            if j == 0 {
                assert(t[0] == '[');
            } else if j == 3 {
                assert(t[3] == ':');
            } else if j == 6 {
                assert(t[6] == '.');
            } else if j == 10 {
                assert(t[10] == ']');
            }
        } else {
            assert(render_line(l)[j] == l.words[j - 11]);
            if l.words[j - 11] == '\n' {
                assert(l.words.contains('\n'));
            }
        }
    }
}

/// Rendering keeps one output line per lyric line, in input order, each
/// beginning with `[`: splitting the rendered text at its newlines gives
/// back exactly the rendered lines, provided no display text itself holds
/// a newline.
pub proof fn lemma_render_structure(lines: Seq<LineView>)
    requires
        lines.len() > 0,
        forall|i: int| 0 <= i < lines.len() ==> !(#[trigger] lines[i]).words.contains('\n'),
    ensures
        split_nl(render_lrc(lines)) == lines.map_values(|l: LineView| render_line(l)),
        forall|i: int|
            0 <= i < lines.len() ==> (#[trigger] render_line(lines[i]))[0] == '[',
    decreases lines.len(),
{
    assert forall|i: int|
        0 <= i < lines.len() implies (#[trigger] render_line(lines[i]))[0] == '[' by {
        lemma_render_line_no_nl(lines[i]);
    }
    if lines.len() == 1 {
        lemma_render_line_no_nl(lines[0]);
        lemma_split_single(render_line(lines[0]));
        assert(seq![render_line(lines[0])] =~= lines.map_values(|l: LineView| render_line(l)));
    } else {
        lemma_render_line_no_nl(lines[0]);
        lemma_split_glue(render_line(lines[0]), render_lrc(lines.drop_first()));
        assert forall|i: int|
            0 <= i < lines.drop_first().len() implies !(#[trigger] lines.drop_first()[i]).words.contains(
            '\n',
        ) by {
            assert(lines.drop_first()[i] == lines[i + 1]);
        }
        lemma_render_structure(lines.drop_first());
        assert(seq![render_line(lines[0])] + lines.drop_first().map_values(
            |l: LineView| render_line(l),
        ) =~= lines.map_values(|l: LineView| render_line(l))) by {
            assert forall|i: int| 0 <= i < lines.len() implies (seq![render_line(lines[0])]
                + lines.drop_first().map_values(|l: LineView| render_line(l)))[i] == render_line(
                #[trigger] lines[i],
            ) by {
                if i > 0 {
                    assert(lines.drop_first()[i - 1] == lines[i]);
                }
            }
        }
    }
}

} // verus!
