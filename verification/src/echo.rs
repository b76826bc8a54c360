//! A command as it is shown before it is run.

use crate::arguments::texts_view;
use crate::listing::{join_lines, joined};
use vstd::prelude::*;
use vstd::string::*;

verus! {

/// The first position from `i` on that holds a line feed, or the length of
/// `s`.
pub open spec fn line_end(s: Seq<char>, i: int) -> int
    decreases s.len() - i,
{
    if i >= s.len() {
        s.len() as int
    } else if 0 <= i && s[i] == '\n' {
        i
    } else {
        line_end(s, i + 1)
    }
}

/// `line` without a carriage return at its end.
pub open spec fn without_return(line: Seq<char>) -> Seq<char> {
    if line.len() > 0 && line.last() == '\r' {
        line.drop_last()
    } else {
        line
    }
}

/// The lines of `s`, without their endings: a line ends with a line feed,
/// before which one carriage return is not part of the line. What follows
/// the last line feed is a line as it stands, unless it is empty.
pub open spec fn lines(s: Seq<char>) -> Seq<Seq<char>>
    decreases s.len(),
{
    if s.len() == 0 {
        Seq::empty()
    } else {
        let end = line_end(s, 0);
        if 0 <= end < s.len() {
            seq![without_return(s.take(end))] + lines(s.skip(end + 1))
        } else {
            seq![s]
        }
    }
}

/// Each of `lines` after the prompt `$ `.
pub open spec fn prompted(lines: Seq<Seq<char>>) -> Seq<Seq<char>> {
    lines.map_values(|line: Seq<char>| "$ "@ + line)
}

/// The position of the next line feed from `from` on, or the length.
fn next_line_feed(text: &str, from: usize, len: usize) -> (r: usize)
    requires
        from <= len,
        len == text@.len(),
    ensures
        from <= r <= len,
        r - from == line_end(text@.skip(from as int), 0),
{
    let ghost rest = text@.skip(from as int);
    let mut end: usize = from;
    while end < len && text.get_char(end) != '\n'
        invariant
            from <= end <= len,
            len == text@.len(),
            rest == text@.skip(from as int),
            line_end(rest, 0) == line_end(rest, end - from),
        decreases len - end,
    {
        assert(rest[end - from] == text@[end as int]);
        end += 1;
    }
    proof {
        if end < len {
            assert(rest[end - from] == text@[end as int]);
        }
    }
    end
}

/// The lines of `text`, without their endings, as `str::lines` gives them.
pub fn text_lines(text: &str) -> (r: Vec<String>)
    ensures
        texts_view(r@) == lines(text@),
{
    let len = text.unicode_len();
    let mut found: Vec<String> = Vec::new();
    let mut start: usize = 0;
    assert(text@.skip(0) =~= text@);
    assert(texts_view(found@) + lines(text@) =~= lines(text@));
    while start < len
        invariant
            start <= len,
            len == text@.len(),
            lines(text@) == texts_view(found@) + lines(text@.skip(start as int)),
        decreases len - start,
    {
        let ghost rest = text@.skip(start as int);
        let ghost before = texts_view(found@);
        let end = next_line_feed(text, start, len);
        if end == len {
            found.push(text.substring_char(start, len).to_owned());
            proof {
                assert(text@.subrange(start as int, len as int) =~= rest);
                assert(texts_view(found@) =~= before.push(rest));
                assert(text@.skip(len as int) =~= Seq::<char>::empty());
                assert(before + seq![rest] =~= before.push(rest) + lines(
                    Seq::<char>::empty(),
                ));
            }
            start = len;
        } else {
            let cut = if end > start && text.get_char(end - 1) == '\r' {
                end - 1
            } else {
                end
            };
            found.push(text.substring_char(start, cut).to_owned());
            proof {
                let line = rest.take(end - start);
                assert(line.len() == end - start);
                if end > start {
                    assert(line.last() == text@[end - 1]);
                }
                assert(text@.subrange(start as int, cut as int) =~= without_return(line));
                assert(texts_view(found@) =~= before.push(without_return(line)));
                assert(rest.skip(end - start + 1) =~= text@.skip(end + 1));
                assert(before + (seq![without_return(line)] + lines(text@.skip(end + 1)))
                    =~= before.push(without_return(line)) + lines(text@.skip(end + 1)));
            }
            start = end + 1;
        }
    }
    proof {
        assert(text@.skip(len as int) =~= Seq::<char>::empty());
        assert(texts_view(found@) + lines(Seq::<char>::empty()) =~= texts_view(found@));
    }
    found
}

/// The command as it is shown before it is run: each of its lines after
/// the prompt `$ `.
pub fn echo(command: &str) -> (r: String)
    ensures
        r@ == joined(prompted(lines(command@))),
{
    let lines = text_lines(command);
    let mut shown: Vec<String> = Vec::new();
    let mut i: usize = 0;
    while i < lines.len()
        invariant
            i <= lines.len(),
            shown.len() == i,
            forall|k: int| 0 <= k < i ==> (#[trigger] shown[k])@ == "$ "@ + lines[k]@,
        decreases lines.len() - i,
    {
        shown.push(String::from_str("$ ").concat(lines[i].as_str()));
        i += 1;
    }
    assert(texts_view(shown@) =~= prompted(texts_view(lines@)));
    join_lines(&shown)
}

} // verus!
