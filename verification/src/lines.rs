//! Texts that are made of lines.

use crate::pattern::no_newline;
use vstd::prelude::*;
use vstd::string::StringExecFns;

verus! {

/// The text that holds `lines` in order, each with a line feed behind it.
pub open spec fn joined(lines: Seq<Seq<char>>) -> Seq<char>
    decreases lines.len(),
{
    if lines.len() == 0 {
        Seq::empty()
    } else {
        joined(lines.drop_last()) + lines.last() + seq!['\n']
    }
}

/// Whether `line` survives being written and read line by line: it holds no line feed
/// and does not end in a carriage return.
pub open spec fn is_line(line: Seq<char>) -> bool {
    no_newline(line) && !(line.len() > 0 && line.last() == '\r')
}

/// Whether `lines` is what `text` holds, line by line.
pub open spec fn are_lines_of(lines: Seq<Seq<char>>, text: Seq<char>) -> bool {
    &&& joined(lines) == text
    &&& forall|i: int| 0 <= i < lines.len() ==> is_line(#[trigger] lines[i])
}

/// The text that holds `lines` in order, each with a line feed behind it.
pub fn join_lines(lines: &Vec<String>) -> (text: String)
    ensures
        text@ == joined(lines.deep_view()),
{
    let mut text = String::new();
    let ghost all = lines.deep_view();
    assert(all.take(0) =~= Seq::empty());
    proof {
        reveal_strlit("\n");
        assert("\n"@ =~= seq!['\n']);
    }
    for i in 0..lines.len()
        invariant
            all == lines.deep_view(),
            "\n"@ == seq!['\n'],
            text@ == joined(all.take(i as int)),
    {
        text.append(lines[i].as_str());
        text.append("\n");
        assert(all.take(i + 1).drop_last() =~= all.take(i as int));
    }
    assert(all.take(lines@.len() as int) =~= all);
    text
}

/// A text is made of lines in one way only.
pub proof fn lines_are_unique(one: Seq<Seq<char>>, other: Seq<Seq<char>>, text: Seq<char>)
    requires
        are_lines_of(one, text),
        are_lines_of(other, text),
    ensures
        one == other,
    decreases one.len(),
{
    if one.len() == 0 || other.len() == 0 {
        assert(one =~= other);
    } else {
        let a = one.last();
        let b = other.last();
        let before_a = joined(one.drop_last());
        let before_b = joined(other.drop_last());
        assert(text == before_a + a + seq!['\n']);
        assert(text == before_b + b + seq!['\n']);
        assert(is_line(a) && is_line(b));
        if a.len() < b.len() {
            ends_with_newline(one.drop_last());
            assert(text[before_a.len() - 1] == '\n');
            assert(b[before_a.len() - 1 - before_b.len()] == '\n');
        } else if b.len() < a.len() {
            ends_with_newline(other.drop_last());
            assert(text[before_b.len() - 1] == '\n');
            assert(a[before_b.len() - 1 - before_a.len()] == '\n');
        }
        assert(before_a =~= text.take(before_a.len() as int));
        assert(before_b =~= text.take(before_b.len() as int));
        assert forall|i: int| 0 <= i < a.len() implies a[i] == b[i] by {
            assert(text[before_a.len() + i] == a[i]);
        }
        assert(a =~= b);
        assert forall|i: int| 0 <= i < one.drop_last().len() implies is_line(
            #[trigger] one.drop_last()[i],
        ) by {
            assert(is_line(one[i]));
        }
        assert forall|i: int| 0 <= i < other.drop_last().len() implies is_line(
            #[trigger] other.drop_last()[i],
        ) by {
            assert(is_line(other[i]));
        }
        lines_are_unique(one.drop_last(), other.drop_last(), before_a);
        assert(one =~= one.drop_last().push(a));
        assert(other =~= other.drop_last().push(b));
    }
}

proof fn ends_with_newline(lines: Seq<Seq<char>>)
    ensures
        joined(lines).len() > 0 ==> joined(lines).last() == '\n',
{
}

/// A line that is added at the end adds itself and a line feed to the text, and no lines
/// make an empty text.
pub proof fn each_line_ends_in_a_line_feed(
    lines: &Vec<String>,
    more: &Vec<String>,
    text: String,
    longer: String,
)
    requires
        call_ensures(join_lines, (lines,), text),
        call_ensures(join_lines, (more,), longer),
        more@.len() == lines@.len() + 1,
        forall|i: int| 0 <= i < lines@.len() ==> (#[trigger] more@[i])@ == lines@[i]@,
    ensures
        longer@ == text@ + more@[lines@.len() as int]@ + seq!['\n'],
        lines@.len() == 0 ==> text@.len() == 0,
{
    assert(more.deep_view().drop_last() =~= lines.deep_view());
}

} // verus!
