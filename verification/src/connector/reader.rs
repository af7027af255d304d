//! The lines of a session file.

use vstd::prelude::*;

use crate::connector::parts::add_item;
use crate::text::{is_blank, is_blank_text};

verus! {

/// The lines that are not blank, each with its number in the file, counted from 1.
pub open spec fn numbered(lines: Seq<Seq<char>>) -> Seq<(i64, Seq<char>)>
    decreases lines.len(),
{
    if lines.len() == 0 {
        Seq::empty()
    } else {
        let before = numbered(lines.drop_last());
        if is_blank_text(lines.last()) {
            before
        } else {
            before.push((lines.len() as i64, lines.last()))
        }
    }
}

/// Numbers the lines of a file and leaves out the blank ones.
pub fn read_all_lines(lines: Vec<String>) -> (r: Vec<(i64, String)>)
    ensures
        r.deep_view() == numbered(lines.deep_view()),
        r@.len() <= lines@.len(),
{
    let ghost all = lines.deep_view();
    let mut out: Vec<(i64, String)> = Vec::new();
    let total: usize = lines.len();
    let mut number: usize = 0;
    proof {
        assert(out.deep_view() =~= numbered(all.take(0)));
    }
    for line in it: lines
        invariant
            it.seq() == lines@,
            all == lines.deep_view(),
            number == it.index(),
            total == lines@.len(),
            out.deep_view() == numbered(all.take(it.index() as int)),
            out@.len() <= it.index(),
    {
        let ghost k = it.index() as int;
        proof {
            assert(line == lines@[k]);
            assert(all.take(k + 1).drop_last() =~= all.take(k));
            assert(all.take(k + 1).last() == line@);
        }
        number = number + 1;
        if !is_blank(line.as_str()) {
            add_item(&mut out, (number as i64, line));
        }
    }
    proof {
        assert(all.take(all.len() as int) =~= all);
    }
    out
}

/// The number of a line is its place in the file, blank lines counted: what is read as
/// line `n` stands there, and is not blank.
pub proof fn law_numbers_are_places(lines: Seq<Seq<char>>, i: int)
    requires
        lines.len() <= i64::MAX,
        0 <= i < numbered(lines).len(),
    ensures
        ({
            let (n, line) = numbered(lines)[i];
            1 <= n <= lines.len() && lines[n - 1] == line && !is_blank_text(line)
        }),
    decreases lines.len(),
{
    let rest = lines.drop_last();
    if i < numbered(rest).len() {
        law_numbers_are_places(rest, i);
        let (n, line) = numbered(rest)[i];
        assert(lines[n - 1] == rest[n - 1]);
    }
}

/// No line that is not blank is left out.
pub proof fn law_no_text_is_left_out(lines: Seq<Seq<char>>, k: int)
    requires
        lines.len() <= i64::MAX,
        0 <= k < lines.len(),
        !is_blank_text(lines[k]),
    ensures
        numbered(lines).contains(((k + 1) as i64, lines[k])),
    decreases lines.len(),
{
    let rest = lines.drop_last();
    let all = numbered(lines);
    let wanted = ((k + 1) as i64, lines[k]);
    if k < rest.len() {
        law_no_text_is_left_out(rest, k);
        let i = choose|i: int| 0 <= i < numbered(rest).len() && numbered(rest)[i] == wanted;
        assert(all[i] == wanted);
    } else {
        assert(all[all.len() - 1] == wanted);
    }
}

/// A line that is added is read behind the others, under its place in the file, unless it is
/// blank.
pub proof fn law_lines_are_read_in_order(lines: Seq<Seq<char>>, line: Seq<char>)
    ensures
        numbered(Seq::empty()).len() == 0,
        is_blank_text(line) ==> numbered(lines.push(line)) == numbered(lines),
        !is_blank_text(line) ==> numbered(lines.push(line)) == numbered(lines).push(
            ((lines.len() + 1) as i64, line),
        ),
{
    assert(lines.push(line).drop_last() =~= lines);
}

}
