//! The backup index: a text of content hashes, one to a line, that only grows.

use vstd::prelude::*;
use vstd::slice::slice_subrange;
use crate::digest::{is_hash_text, is_hex_char, ContentHash};
use crate::text::{chars_of, same_chars, string_of};

verus! {

/// The position of the first line feed in `s`, or the length of `s` where it
/// holds none.
pub open spec fn first_newline(s: Seq<char>) -> int
    decreases s.len(),
{
    if s.len() == 0 {
        0
    } else if s[0] == '\n' {
        0
    } else {
        1 + first_newline(s.drop_first())
    }
}

/// `line` without the carriage return at its end, if it has one there.
pub open spec fn strip_cr(line: Seq<char>) -> Seq<char> {
    if line.len() > 0 && line.last() == '\r' {
        line.drop_last()
    } else {
        line
    }
}

/// The lines of `content`. A line ends at a line feed, or at a carriage return
/// directly followed by one; neither belongs to the line. What follows the
/// last line feed is a line too, unless it is empty.
pub open spec fn index_lines(content: Seq<char>) -> Seq<Seq<char>>
    decreases content.len(),
{
    if content.len() == 0 {
        Seq::empty()
    } else {
        let k = first_newline(content);
        if k < 0 || k >= content.len() {
            seq![content]
        } else {
            seq![strip_cr(content.take(k))] + index_lines(content.skip(k + 1))
        }
    }
}

/// Whether every line of `content` is closed by a line feed.
pub open spec fn is_complete(content: Seq<char>) -> bool {
    content.len() == 0 || content.last() == '\n'
}

/// Whether `line` can stand in the index as it is: it holds no line feed and
/// does not end in a carriage return.
pub open spec fn is_plain_line(line: Seq<char>) -> bool {
    &&& !line.contains('\n')
    &&& !(line.len() > 0 && line.last() == '\r')
}

/// What the index gains when `hash` is recorded: the hash and a line feed.
pub open spec fn entry_text(hash: Seq<char>) -> Seq<char> {
    hash.push('\n')
}

/// `first_newline` lies within `s`, nothing before it is a line feed, and it
/// is one unless it is the end of `s`.
pub proof fn lemma_first_newline(s: Seq<char>)
    ensures
        0 <= first_newline(s) <= s.len(),
        forall|j: int| 0 <= j < first_newline(s) ==> s[j] != '\n',
        first_newline(s) < s.len() ==> s[first_newline(s)] == '\n',
    decreases s.len(),
{
    if s.len() > 0 && s[0] != '\n' {
        let rest = s.drop_first();
        lemma_first_newline(rest);
        assert forall|j: int| 0 <= j < first_newline(s) implies s[j] != '\n' by {
            if j > 0 {
                assert(s[j] == rest[j - 1]);
            }
        }
    }
}

/// A position with no line feed before it, which is a line feed or the end of
/// `s`, is `first_newline(s)`.
pub proof fn lemma_first_newline_at(s: Seq<char>, k: int)
    requires
        0 <= k <= s.len(),
        forall|j: int| 0 <= j < k ==> s[j] != '\n',
        k < s.len() ==> s[k] == '\n',
    ensures
        first_newline(s) == k,
{
    lemma_first_newline(s);
}

/// A plain line is the one line of the text made of it and a line feed.
pub proof fn lemma_lines_of_entry(line: Seq<char>)
    requires
        is_plain_line(line),
    ensures
        index_lines(line.push('\n')) == seq![line],
{
    let text = line.push('\n');
    let k = line.len() as int;
    assert forall|j: int| 0 <= j < k implies text[j] != '\n' by {}
    lemma_first_newline_at(text, k);
    assert(text.take(k) =~= line);
    assert(index_lines(text.skip(k + 1)) =~= Seq::<Seq<char>>::empty());
}

/// Recording a plain line in a complete index adds that line after the lines
/// that were there, and leaves the index complete.
pub proof fn lemma_lines_after_append(content: Seq<char>, line: Seq<char>)
    requires
        is_complete(content),
        is_plain_line(line),
    ensures
        index_lines(content + line.push('\n')) == index_lines(content).push(line),
        is_complete(content + line.push('\n')),
    decreases content.len(),
{
    let added = line.push('\n');
    let whole = content + added;
    if content.len() == 0 {
        lemma_lines_of_entry(line);
    } else {
        lemma_first_newline(content);
        let k = first_newline(content);
        assert(k < content.len());
        assert forall|j: int| 0 <= j < k implies whole[j] != '\n' by {}
        lemma_first_newline_at(whole, k);
        let rest = content.skip(k + 1);
        assert(is_complete(rest));
        lemma_lines_after_append(rest, line);
        assert(whole.skip(k + 1) =~= rest + added);
        assert(whole.take(k) =~= content.take(k));
    }
}

/// The text of a content hash is a plain line.
pub proof fn lemma_hash_text_is_plain(hash: Seq<char>)
    requires
        is_hash_text(hash),
    ensures
        is_plain_line(hash),
{
}

/// Whether `hash` is one of the lines of the index text `content`.
pub fn index_contains(content: &str, hash: &str) -> (found: bool)
    ensures
        found == index_lines(content@).contains(hash@),
{
    let text = chars_of(content);
    let wanted = chars_of(hash);
    let mut start: usize = 0;
    assert(text@.skip(0) =~= text@);
    while start < text.len()
        invariant
            start <= text.len(),
            text@ == content@,
            wanted@ == hash@,
            index_lines(text@).contains(wanted@) == index_lines(text@.skip(start as int)).contains(
                wanted@,
            ),
        decreases text.len() - start,
    {
        let ghost tail = text@.skip(start as int);
        let mut end: usize = start;
        while end < text.len() && text[end] != '\n'
            invariant
                start <= end <= text.len(),
                forall|j: int| start <= j < end ==> text@[j] != '\n',
            decreases text.len() - end,
        {
            end += 1;
        }
        proof {
            assert forall|j: int| 0 <= j < end - start implies tail[j] != '\n' by {}
            lemma_first_newline_at(tail, end - start);
        }
        let closed = end < text.len();
        let mut line_end: usize = end;
        if closed && end > start && text[end - 1] == '\r' {
            line_end = end - 1;
        }
        let line = slice_subrange(text.as_slice(), start, line_end);
        let ghost first = if closed {
            strip_cr(tail.take(end - start))
        } else {
            tail
        };
        let ghost others = if closed {
            index_lines(tail.skip(end - start + 1))
        } else {
            Seq::<Seq<char>>::empty()
        };
        proof {
            assert(line@ =~= first);
            if closed {
                assert(tail.skip(end - start + 1) =~= text@.skip(end + 1));
            }
        }
        if same_chars(line, wanted.as_slice()) {
            proof {
                assert((seq![first] + others)[0] == wanted@);
            }
            return true;
        }
        proof {
            let all = seq![first] + others;
            if others.contains(wanted@) {
                let i = choose|i: int| 0 <= i < others.len() && others[i] == wanted@;
                assert(all[i + 1] == wanted@);
            }
        }
        if closed {
            start = end + 1;
        } else {
            start = end;
        }
    }
    false
}

/// The text to append to the index when `hash` is recorded.
pub fn index_entry(hash: &ContentHash) -> (entry: String)
    ensures
        entry@ == entry_text(hash@),
{
    let mut chars = chars_of(hash.as_str());
    chars.push('\n');
    string_of(chars.as_slice())
}

} // verus!
