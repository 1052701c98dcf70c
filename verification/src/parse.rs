//! The text model of a scan listing and its parser.
//!
//! A listing is one block of text.  It is cut at every newline into lines;
//! the first line is a column header and is dropped; every other line is cut
//! on runs of whitespace into tokens; a line with at least three tokens
//! contributes its second token (index 1) as an SSID, in line order.  A line
//! with fewer tokens contributes nothing.

use vstd::prelude::*;
use vstd::string::StrSliceExecFns;

verus! {

/// Whether `c` carries the Unicode `White_Space` property, the set of
/// characters on which a line is cut into tokens.
pub open spec fn is_wspace(c: char) -> bool {
    ||| c == '\u{0009}'
    ||| c == '\u{000A}'
    ||| c == '\u{000B}'
    ||| c == '\u{000C}'
    ||| c == '\u{000D}'
    ||| c == '\u{0020}'
    ||| c == '\u{0085}'
    ||| c == '\u{00A0}'
    ||| c == '\u{1680}'
    ||| c == '\u{2000}'
    ||| c == '\u{2001}'
    ||| c == '\u{2002}'
    ||| c == '\u{2003}'
    ||| c == '\u{2004}'
    ||| c == '\u{2005}'
    ||| c == '\u{2006}'
    ||| c == '\u{2007}'
    ||| c == '\u{2008}'
    ||| c == '\u{2009}'
    ||| c == '\u{200A}'
    ||| c == '\u{2028}'
    ||| c == '\u{2029}'
    ||| c == '\u{202F}'
    ||| c == '\u{205F}'
    ||| c == '\u{3000}'
}

/// The lines of `s`: the maximal stretches between newline characters.
/// A text with `k` newlines has exactly `k + 1` lines; an empty text has the
/// one empty line.  Newlines separate rather than terminate, so a text that
/// ends in a newline ends in an empty line.
pub open spec fn split_lines(s: Seq<char>) -> Seq<Seq<char>>
    decreases s.len(),
{
    if s.len() == 0 {
        seq![Seq::<char>::empty()]
    } else if s[0] == '\n' {
        seq![Seq::<char>::empty()] + split_lines(s.drop_first())
    } else {
        let rest = split_lines(s.drop_first());
        seq![seq![s[0]] + rest[0]] + rest.drop_first()
    }
}

/// The tokens of `line`: the maximal stretches of non-whitespace characters,
/// in order.  No token is empty, and whitespace at either end contributes
/// nothing.
pub open spec fn tokens_of(line: Seq<char>) -> Seq<Seq<char>>
    decreases line.len(),
{
    if line.len() == 0 {
        Seq::<Seq<char>>::empty()
    } else {
        let rest = tokens_of(line.drop_first());
        if is_wspace(line[0]) {
            rest
        } else if line.len() > 1 && !is_wspace(line[1]) {
            seq![seq![line[0]] + rest[0]] + rest.drop_first()
        } else {
            seq![seq![line[0]]] + rest
        }
    }
}

/// The SSIDs contributed by `lines`: for each line with at least three
/// tokens, its token at index 1, in line order.
pub open spec fn ssids_of_lines(lines: Seq<Seq<char>>) -> Seq<Seq<char>>
    decreases lines.len(),
{
    if lines.len() == 0 {
        Seq::<Seq<char>>::empty()
    } else {
        let rest = ssids_of_lines(lines.drop_first());
        if tokens_of(lines[0]).len() >= 3 {
            seq![tokens_of(lines[0])[1]] + rest
        } else {
            rest
        }
    }
}

/// The SSIDs of a whole captured listing: its lines after the header line,
/// each reduced to its second token where it has at least three.
pub open spec fn parse_scan(text: Seq<char>) -> Seq<Seq<char>> {
    ssids_of_lines(split_lines(text).drop_first())
}

/// The views of a sequence of character vectors, element by element.
pub open spec fn views_of(vs: Seq<Vec<char>>) -> Seq<Seq<char>> {
    Seq::new(vs.len(), |i: int| vs[i]@)
}

/// A text always has at least its first line, empty or not.
pub proof fn lemma_split_lines_len(s: Seq<char>)
    ensures
        split_lines(s).len() >= 1,
    decreases s.len(),
{
    if s.len() != 0 && s[0] != '\n' {
        lemma_split_lines_len(s.drop_first());
    }
}

/// Whether `c` carries the Unicode `White_Space` property.
pub fn is_space(c: char) -> (b: bool)
    ensures
        b == is_wspace(c),
{
    c == '\u{0009}' || c == '\u{000A}' || c == '\u{000B}' || c == '\u{000C}' || c == '\u{000D}'
        || c == '\u{0020}' || c == '\u{0085}' || c == '\u{00A0}' || c == '\u{1680}'
        || c == '\u{2000}' || c == '\u{2001}' || c == '\u{2002}' || c == '\u{2003}'
        || c == '\u{2004}' || c == '\u{2005}' || c == '\u{2006}' || c == '\u{2007}'
        || c == '\u{2008}' || c == '\u{2009}' || c == '\u{200A}' || c == '\u{2028}'
        || c == '\u{2029}' || c == '\u{202F}' || c == '\u{205F}' || c == '\u{3000}'
}

/// The characters of `text`, in order, as a vector.
pub fn chars_of(text: &str) -> (cs: Vec<char>)
    ensures
        cs@ == text@,
{
    let n = text.unicode_len();
    let mut cs: Vec<char> = Vec::new();
    let mut i: usize = 0;
    while i < n
        invariant
            i <= n,
            n == text@.len(),
            cs@ == text@.take(i as int),
        decreases n - i,
    {
        let c = text.get_char(i);
        cs.push(c);
        proof {
            assert(text@.take(i as int).push(text@[i as int]) =~= text@.take(i as int + 1));
        }
        i = i + 1;
    }
    proof {
        assert(text@.take(n as int) =~= text@);
    }
    cs
}

/// The lines of `cs`, split at every newline character: `k` newlines give
/// `k + 1` lines, and the newlines themselves appear in none of them.
pub fn split_lines_exec(cs: &Vec<char>) -> (lines: Vec<Vec<char>>)
    ensures
        views_of(lines@) == split_lines(cs@),
{
    let mut lines: Vec<Vec<char>> = Vec::new();
    lines.push(Vec::new());
    let mut i: usize = cs.len();
    proof {
        assert(cs@.skip(cs@.len() as int) =~= Seq::<char>::empty());
        assert(views_of(lines@) =~~= split_lines(cs@.skip(i as int)));
    }
    while i > 0
        invariant
            i <= cs@.len(),
            views_of(lines@) == split_lines(cs@.skip(i as int)),
        decreases i,
    {
        i = i - 1;
        let c = cs[i];
        proof {
            lemma_split_lines_len(cs@.skip(i as int + 1));
            assert(cs@.skip(i as int) =~= seq![cs@[i as int]] + cs@.skip(i as int + 1));
            assert(cs@.skip(i as int).drop_first() =~= cs@.skip(i as int + 1));
        }
        if c == '\n' {
            lines.insert(0, Vec::new());
            proof {
                assert(views_of(lines@) =~~= split_lines(cs@.skip(i as int)));
            }
        } else {
            let mut first = lines.remove(0);
            first.insert(0, c);
            lines.insert(0, first);
            proof {
                assert(views_of(lines@) =~~= split_lines(cs@.skip(i as int)));
            }
        }
    }
    proof {
        assert(cs@.skip(0) =~= cs@);
    }
    lines
}

/// A stretch that begins with a non-whitespace character yields at least one
/// token.
pub proof fn lemma_tokens_nonempty(s: Seq<char>)
    requires
        s.len() > 0,
        !is_wspace(s[0]),
    ensures
        tokens_of(s).len() >= 1,
{
}

/// The tokens of `line`: the maximal stretches of non-whitespace characters,
/// each as its own vector, in order.
pub fn tokens_exec(line: &Vec<char>) -> (toks: Vec<Vec<char>>)
    ensures
        views_of(toks@) == tokens_of(line@),
{
    let mut toks: Vec<Vec<char>> = Vec::new();
    let mut i: usize = line.len();
    proof {
        assert(line@.skip(line@.len() as int) =~= Seq::<char>::empty());
        assert(views_of(toks@) =~~= tokens_of(line@.skip(i as int)));
    }
    while i > 0
        invariant
            i <= line@.len(),
            views_of(toks@) == tokens_of(line@.skip(i as int)),
        decreases i,
    {
        i = i - 1;
        let c = line[i];
        proof {
            assert(line@.skip(i as int) =~= seq![line@[i as int]] + line@.skip(i as int + 1));
            assert(line@.skip(i as int).drop_first() =~= line@.skip(i as int + 1));
        }
        if is_space(c) {
            proof {
                assert(views_of(toks@) =~~= tokens_of(line@.skip(i as int)));
            }
        } else if i + 1 < line.len() && !is_space(line[i + 1]) {
            proof {
                lemma_tokens_nonempty(line@.skip(i as int + 1));
            }
            let mut first = toks.remove(0);
            first.insert(0, c);
            toks.insert(0, first);
            proof {
                assert(views_of(toks@) =~~= tokens_of(line@.skip(i as int)));
            }
        } else {
            let mut single: Vec<char> = Vec::new();
            single.push(c);
            toks.insert(0, single);
            proof {
                assert(views_of(toks@) =~~= tokens_of(line@.skip(i as int)));
            }
        }
    }
    proof {
        assert(line@.skip(0) =~= line@);
    }
    toks
}

/// The second tokens of exactly those lines that have at least three tokens,
/// in line order.
pub open spec fn data_ssids(lines: Seq<Seq<char>>) -> Seq<Seq<char>> {
    lines.filter(|l: Seq<char>| tokens_of(l).len() >= 3).map_values(
        |l: Seq<char>| tokens_of(l)[1],
    )
}

/// Law: a line with at least three tokens contributes exactly its token at
/// index 1 as an SSID, ahead of whatever the following lines contribute.
pub proof fn lemma_line_ssid_is_second_token(l: Seq<char>, rest: Seq<Seq<char>>)
    requires
        tokens_of(l).len() >= 3,
    ensures
        ssids_of_lines(seq![l] + rest) == seq![tokens_of(l)[1]] + ssids_of_lines(rest),
{
    assert((seq![l] + rest).drop_first() =~= rest);
    assert((seq![l] + rest)[0] == l);
}

/// Law: a line with fewer than three tokens contributes nothing, and the
/// lines after it are processed exactly as they would be without it.
pub proof fn lemma_short_line_skipped(l: Seq<char>, rest: Seq<Seq<char>>)
    requires
        tokens_of(l).len() < 3,
    ensures
        ssids_of_lines(seq![l] + rest) == ssids_of_lines(rest),
{
    assert((seq![l] + rest).drop_first() =~= rest);
    assert((seq![l] + rest)[0] == l);
}

/// Appending one line to a list of lines appends that line's contribution.
pub proof fn lemma_ssids_push(lines: Seq<Seq<char>>, l: Seq<char>)
    ensures
        ssids_of_lines(lines.push(l)) == ssids_of_lines(lines) + (if tokens_of(l).len() >= 3 {
            seq![tokens_of(l)[1]]
        } else {
            Seq::<Seq<char>>::empty()
        }),
    decreases lines.len(),
{
    if lines.len() == 0 {
        assert(lines.push(l) =~= seq![l]);
        assert(seq![l].drop_first() =~= Seq::<Seq<char>>::empty());
        assert(ssids_of_lines(Seq::<Seq<char>>::empty()) == Seq::<Seq<char>>::empty());
        assert(ssids_of_lines(lines) + seq![tokens_of(l)[1]] =~~= seq![tokens_of(l)[1]]);
        assert(ssids_of_lines(lines) + Seq::<Seq<char>>::empty() =~~= Seq::<Seq<char>>::empty());
    } else {
        lemma_ssids_push(lines.drop_first(), l);
        assert(lines.push(l).drop_first() =~= lines.drop_first().push(l));
        assert(lines.push(l)[0] == lines[0]);
        if tokens_of(lines[0]).len() >= 3 {
            assert(seq![tokens_of(lines[0])[1]] + ssids_of_lines(lines.drop_first().push(l))
                =~~= (seq![tokens_of(lines[0])[1]] + ssids_of_lines(lines.drop_first())) + (
            if tokens_of(l).len() >= 3 {
                seq![tokens_of(l)[1]]
            } else {
                Seq::<Seq<char>>::empty()
            }));
        }
    }
}

/// Law: the SSIDs drawn from a list of lines are exactly the second tokens
/// of those lines that have at least three tokens, in line order.  Lines
/// with fewer tokens leave no trace.
pub proof fn lemma_ssids_are_second_tokens(lines: Seq<Seq<char>>)
    ensures
        ssids_of_lines(lines) == data_ssids(lines),
    decreases lines.len(),
{
    reveal(Seq::filter);
    let p = (|l: Seq<char>| tokens_of(l).len() >= 3);
    let f = (|l: Seq<char>| tokens_of(l)[1]);
    if lines.len() == 0 {
        assert(lines.filter(p).map_values(f) =~~= Seq::<Seq<char>>::empty());
    } else {
        let init = lines.drop_last();
        let l = lines.last();
        lemma_ssids_are_second_tokens(init);
        lemma_ssids_push(init, l);
        assert(lines =~= init.push(l));
        assert(lines.filter(p) == if p(l) {
            init.filter(p).push(l)
        } else {
            init.filter(p)
        });
        if p(l) {
            assert(init.filter(p).push(l).map_values(f) =~~= init.filter(p).map_values(f).push(
                f(l),
            ));
            assert(init.filter(p).map_values(f).push(f(l)) =~~= init.filter(p).map_values(f)
                + seq![tokens_of(l)[1]]);
        } else {
            assert(ssids_of_lines(init) + Seq::<Seq<char>>::empty() =~~= ssids_of_lines(init));
        }
    }
}

/// No newline means one single line.
pub proof fn lemma_no_newline_single_line(s: Seq<char>)
    requires
        forall|i: int| 0 <= i < s.len() ==> s[i] != '\n',
    ensures
        split_lines(s).len() == 1,
    decreases s.len(),
{
    if s.len() > 0 {
        assert(forall|i: int|
            0 <= i < s.drop_first().len() ==> s.drop_first()[i] == s[i + 1]);
        lemma_no_newline_single_line(s.drop_first());
    }
}

/// Law: a capture that holds only the header line — no newline, hence no
/// data lines — parses to the empty list of SSIDs.
pub proof fn lemma_header_only(text: Seq<char>)
    requires
        forall|i: int| 0 <= i < text.len() ==> text[i] != '\n',
    ensures
        parse_scan(text) == Seq::<Seq<char>>::empty(),
{
    lemma_no_newline_single_line(text);
    assert(split_lines(text).drop_first() =~= Seq::<Seq<char>>::empty());
}

/// Law: parsing holds no hidden state — the SSIDs are a function of the
/// captured text alone, so parsing equal texts gives equal results.
pub proof fn lemma_parse_deterministic(a: Seq<char>, b: Seq<char>)
    requires
        a == b,
    ensures
        parse_scan(a) == parse_scan(b),
{
}

} // verus!
