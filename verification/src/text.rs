//! Line splitting and substring search over document text, the primitives the
//! diagnostic rules are built on.  Text is a sequence of bytes; a line break is
//! a line feed, with a carriage return directly before it stripped from the
//! finished line.

use vstd::prelude::*;

verus! {

/// Line feed byte.
pub const LINE_FEED: u8 = 10;

/// Carriage return byte.
pub const CARRIAGE_RETURN: u8 = 13;

/// A finished line loses one carriage return left behind by a `\r\n` break.
pub open spec fn strip_cr(line: Seq<u8>) -> Seq<u8> {
    if line.len() > 0 && line.last() == CARRIAGE_RETURN {
        line.drop_last()
    } else {
        line
    }
}

/// State of a line scan after the first `n` bytes of `text`: the finished
/// lines, and the bytes of the line still being read.
pub open spec fn lines_state(text: Seq<u8>, n: int) -> (Seq<Seq<u8>>, Seq<u8>)
    decreases n,
{
    if n <= 0 {
        (Seq::empty(), Seq::empty())
    } else {
        let prev = lines_state(text, n - 1);
        if text[n - 1] == LINE_FEED {
            (prev.0.push(strip_cr(prev.1)), Seq::empty())
        } else {
            (prev.0, prev.1.push(text[n - 1]))
        }
    }
}

/// The lines of `text`.  A trailing line without a final line feed still
/// counts; a final line feed does not open an empty last line.
pub open spec fn spec_lines(text: Seq<u8>) -> Seq<Seq<u8>> {
    let st = lines_state(text, text.len() as int);
    if st.1.len() == 0 {
        st.0
    } else {
        st.0.push(st.1)
    }
}

/// `pat` occurs in `line` at offset `i`.
pub open spec fn match_at(line: Seq<u8>, pat: Seq<u8>, i: int) -> bool {
    &&& 0 <= i
    &&& i + pat.len() <= line.len()
    &&& line.subrange(i, i + pat.len() as int) == pat
}

/// Offset of the first occurrence of `pat` in `line` at or after `i`.
pub open spec fn first_match_from(line: Seq<u8>, pat: Seq<u8>, i: int) -> Option<int>
    decreases line.len() - i,
{
    if i < 0 || i + pat.len() > line.len() {
        None
    } else if pat.len() == 0 {
        Some(i)
    } else if line.subrange(i, i + pat.len() as int) == pat {
        Some(i)
    } else {
        first_match_from(line, pat, i + 1)
    }
}

/// Offset of the first occurrence of `pat` in `line`, if any.
pub open spec fn first_match(line: Seq<u8>, pat: Seq<u8>) -> Option<int> {
    first_match_from(line, pat, 0)
}

/// A successful search result really is a match, and the first one.
pub proof fn lemma_first_match_from_some(line: Seq<u8>, pat: Seq<u8>, i: int)
    requires
        first_match_from(line, pat, i) is Some,
    ensures
        match_at(line, pat, first_match_from(line, pat, i)->Some_0),
        first_match_from(line, pat, i)->Some_0 >= i,
    decreases line.len() - i,
{
    if !(i < 0 || i + pat.len() > line.len()) {
        if pat.len() == 0 {
            assert(line.subrange(i, i) =~= pat);
        } else if line.subrange(i, i + pat.len() as int) == pat {
        } else {
            lemma_first_match_from_some(line, pat, i + 1);
        }
    }
}

/// Splits `text` into its lines.
pub fn split_lines(text: &Vec<u8>) -> (lines: Vec<Vec<u8>>)
    ensures
        lines.deep_view() == spec_lines(text@),
{
    let mut lines: Vec<Vec<u8>> = Vec::new();
    let mut cur: Vec<u8> = Vec::new();
    let mut i: usize = 0;
    while i < text.len()
        invariant
            i <= text@.len(),
            lines.deep_view() == lines_state(text@, i as int).0,
            cur@ == lines_state(text@, i as int).1,
        decreases text@.len() - i,
    {
        let b: u8 = text[i];
        if b == LINE_FEED {
            if cur.len() > 0 && cur[cur.len() - 1] == CARRIAGE_RETURN {
                cur.pop();
            }
            assert(cur@ =~= strip_cr(lines_state(text@, i as int).1));
            let ghost prev_dv = lines.deep_view();
            let ghost cur_v = cur@;
            lines.push(cur);
            assert(lines.deep_view() =~~= prev_dv.push(cur_v));
            cur = Vec::new();
        } else {
            cur.push(b);
        }
        i = i + 1;
    }
    if cur.len() > 0 {
        let ghost prev_dv = lines.deep_view();
        let ghost cur_v = cur@;
        lines.push(cur);
        assert(lines.deep_view() =~~= prev_dv.push(cur_v));
    }
    lines
}

/// Finds the first occurrence of `pat` in `line`.
pub fn find_pattern(line: &Vec<u8>, pat: &Vec<u8>) -> (r: Option<usize>)
    ensures
        match r {
            Some(i) => first_match(line@, pat@) == Some(i as int),
            None => first_match(line@, pat@) is None,
        },
{
    if pat.len() == 0 {
        assert(line@.subrange(0, 0) =~= pat@);
        return Some(0);
    }
    if line.len() < pat.len() {
        return None;
    }
    let bound: usize = line.len() - pat.len();
    let mut i: usize = 0;
    while i <= bound
        invariant
            pat@.len() >= 1,
            pat@.len() <= line@.len(),
            line@.len() <= usize::MAX,
            bound == line@.len() - pat@.len(),
            i <= bound + 1,
            first_match(line@, pat@) == first_match_from(line@, pat@, i as int),
        decreases bound + 1 - i,
    {
        let mut j: usize = 0;
        let mut matched = true;
        while j < pat.len()
            invariant
                i + pat@.len() <= line@.len(),
                line@.len() <= usize::MAX,
                j <= pat@.len(),
                matched ==> forall|k: int| 0 <= k < j ==> line@[i + k] == pat@[k],
                !matched ==> line@.subrange(i as int, i + pat@.len()) != pat@,
            decreases pat@.len() - j,
        {
            if line[i + j] != pat[j] {
                assert(line@.subrange(i as int, i + pat@.len())[j as int] != pat@[j as int]);
                matched = false;
                j = pat.len();
            } else {
                j = j + 1;
            }
        }
        if matched {
            assert(line@.subrange(i as int, i + pat@.len()) =~= pat@);
            return Some(i);
        }
        i = i + 1;
    }
    assert(first_match_from(line@, pat@, i as int) is None);
    None
}

} // verus!
