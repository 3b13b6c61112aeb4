//! Reading program output: splitting text into lines, and line numbers of offsets.

use vstd::prelude::*;
use vstd::string::{StrSliceExecFns, StringExecFns};

use crate::command::words;

verus! {

/// A line without the carriage return of a `\r\n` ending.
pub open spec fn trim_cr(line: Seq<char>) -> Seq<char> {
    if line.len() > 0 && line.last() == '\r' {
        line.drop_last()
    } else {
        line
    }
}

/// The lines that end with a `\n` among the first `n` characters of `text`,
/// and the position where the next line starts.
pub open spec fn lines_before(text: Seq<char>, n: int) -> (Seq<Seq<char>>, int)
    decreases n,
{
    if n <= 0 {
        (Seq::empty(), 0)
    } else {
        let prev = lines_before(text, n - 1);
        if text[n - 1] == '\n' {
            (prev.0.push(trim_cr(text.subrange(prev.1, n - 1))), n)
        } else {
            prev
        }
    }
}

/// The lines of `text`: split at `\n` or `\r\n`, without the endings; the last
/// line needs no ending, and a final ending adds no empty line.
pub open spec fn lines_of(text: Seq<char>) -> Seq<Seq<char>> {
    let done = lines_before(text, text.len() as int);
    if done.1 < text.len() {
        done.0.push(text.subrange(done.1, text.len() as int))
    } else {
        done.0
    }
}

/// Splits program output into its lines, as `lines_of` describes.
pub fn parse_lines(output: &str) -> (r: Vec<String>)
    ensures
        words(r@) == lines_of(output@),
{
    let n = output.unicode_len();
    let mut r: Vec<String> = Vec::new();
    let mut start: usize = 0;
    let mut i: usize = 0;
    while i < n
        invariant
            n == output@.len(),
            start <= i <= n,
            words(r@) == lines_before(output@, i as int).0,
            start == lines_before(output@, i as int).1,
        decreases n - i,
    {
        if output.get_char(i) == '\n' {
            let mut end = i;
            if end > start && output.get_char(end - 1) == '\r' {
                end = end - 1;
            }
            let ghost prev = words(r@);
            r.push(String::from_str(output.substring_char(start, end)));
            assert(output@.subrange(start as int, end as int) == trim_cr(output@.subrange(start as int, i as int)));
            assert(words(r@) =~= prev.push(output@.subrange(start as int, end as int)));
            start = i + 1;
        }
        i = i + 1;
    }
    if start < n {
        let ghost prev = words(r@);
        r.push(String::from_str(output.substring_char(start, n)));
        assert(words(r@) =~= prev.push(output@.subrange(start as int, n as int)));
    }
    r
}

/// The offsets are in strictly increasing order.
pub open spec fn strictly_increasing(offsets: Seq<(usize, &str)>) -> bool {
    forall|i: int, j: int| 0 <= i < j < offsets.len() ==> offsets[i].0 < offsets[j].0
}

/// The zero-based line on which the byte `byte_offset` lies, given the offsets
/// of the line breaks of the text in increasing order: the number of breaks
/// that come before it.
pub fn get_line_number(line_offsets: &[(usize, &str)], byte_offset: usize) -> (r: usize)
    requires
        strictly_increasing(line_offsets@),
    ensures
        r <= line_offsets@.len(),
        forall|i: int| 0 <= i < r ==> line_offsets@[i].0 < byte_offset,
        forall|i: int| r <= i < line_offsets@.len() ==> line_offsets@[i].0 >= byte_offset,
{
    let mut lo: usize = 0;
    let mut hi: usize = line_offsets.len();
    while lo < hi
        invariant
            lo <= hi <= line_offsets@.len(),
            strictly_increasing(line_offsets@),
            forall|i: int| 0 <= i < lo ==> line_offsets@[i].0 < byte_offset,
            forall|i: int| hi <= i < line_offsets@.len() ==> line_offsets@[i].0 >= byte_offset,
        decreases hi - lo,
    {
        let mid = lo + (hi - lo) / 2;
        if line_offsets[mid].0 < byte_offset {
            lo = mid + 1;
        } else {
            hi = mid;
        }
    }
    lo
}

} // verus!
