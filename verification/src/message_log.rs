//! The log of sent messages: a text with one identifier per line, written
//! in the order of sending and read back when the messages are to be
//! deleted.

use vstd::prelude::*;
use crate::text::{chars_of, is_whitespace, lemma_trimmed_is_stretch, trim_bounds, trimmed};

verus! {

/// The path of the log file.
pub const MESSAGE_ID_LOG: &'static str = "message-id.log";

/// What one append writes for the identifier `id`: the identifier and a
/// line feed.
pub open spec fn record_text(id: Seq<char>) -> Seq<char> {
    id + seq!['\n']
}

/// The content of a log that was created empty and to which the
/// identifiers `ids` were appended one after the other.
pub open spec fn log_text(ids: Seq<Seq<char>>) -> Seq<char>
    decreases ids.len(),
{
    if ids.len() == 0 {
        Seq::empty()
    } else {
        log_text(ids.drop_last()) + record_text(ids.last())
    }
}

/// The length of the first line of `text`: the index of its first line
/// feed, or its length if it holds none.
pub open spec fn line_end(text: Seq<char>) -> nat
    decreases text.len(),
{
    if text.len() == 0 || text[0] == '\n' {
        0
    } else {
        1 + line_end(text.skip(1))
    }
}

/// The identifiers that a log with the content `content` holds: its lines
/// in order, each without the white space at its ends, empty ones left out.
pub open spec fn log_entries(content: Seq<char>) -> Seq<Seq<char>>
    decreases content.len(),
{
    if content.len() == 0 {
        Seq::empty()
    } else {
        let end = line_end(content) as int;
        let entry = trimmed(content.take(end));
        let first = if entry.len() > 0 {
            seq![entry]
        } else {
            Seq::empty()
        };
        if end < content.len() {
            first + log_entries(content.skip(end + 1))
        } else {
            first
        }
    }
}

/// The texts of a vector of strings.
pub open spec fn texts(strings: Seq<String>) -> Seq<Seq<char>> {
    Seq::new(strings.len(), |i: int| strings[i]@)
}

/// An identifier that a log hands back as it was written: not empty, on one
/// line, with no white space at either end.
pub open spec fn valid_identifier(id: Seq<char>) -> bool {
    &&& id.len() > 0
    &&& forall|i: int| 0 <= i < id.len() ==> id[i] != '\n'
    &&& !is_whitespace(id.first())
    &&& !is_whitespace(id.last())
}

/// Whether every line of `text` is closed by a line feed.
pub open spec fn terminated(text: Seq<char>) -> bool {
    text.len() == 0 || text.last() == '\n'
}

/// The text that is appended to the log for the identifier `id`.
pub fn record_line(id: &str) -> (line: String)
    ensures
        line@ == record_text(id@),
{
    let mut line = String::from_str(id);
    proof {
        reveal_strlit("\n");
    }
    line.append("\n");
    assert(line@ =~= record_text(id@));
    line
}

/// Reads the identifiers back from the content of the log, in the order in
/// which they were written.
pub fn read_all(content: &str) -> (ids: Vec<String>)
    ensures
        texts(ids@) == log_entries(content@),
{
    let chars = chars_of(content);
    let n: usize = chars.len();
    let mut ids: Vec<String> = Vec::new();
    let mut start: usize = 0;
    assert(chars@.skip(0) =~= chars@);
    assert(texts(ids@) + log_entries(chars@) =~= log_entries(chars@));
    while start < n
        invariant
            start <= n,
            n == chars.len(),
            chars@ == content@,
            texts(ids@) + log_entries(chars@.skip(start as int)) == log_entries(chars@),
        decreases n - start,
    {
        let ghost rest = chars@.skip(start as int);
        let ghost before = texts(ids@);
        let mut end: usize = start;
        while end < n && chars[end] != '\n'
            invariant
                start <= end <= n,
                n == chars.len(),
                forall|k: int| start <= k < end ==> chars@[k] != '\n',
            decreases n - end,
        {
            end += 1;
        }
        proof {
            assert forall|i: int| 0 <= i < end - start implies rest[i] != '\n' by {
                assert(rest[i] == chars@[start + i]);
            }
            lemma_line_end_is(rest, end - start);
            assert(rest.take(end - start) =~= chars@.subrange(start as int, end as int));
        }
        let (lo, hi) = trim_bounds(&chars, start, end);
        if lo < hi {
            let id = content.substring_char(lo, hi).to_owned();
            ids.push(id);
            assert(texts(ids@) =~= before + seq![trimmed(rest.take(end - start))]);
        }
        if end < n {
            assert(rest.skip(end - start + 1) =~= chars@.skip(end + 1));
            start = end + 1;
        } else {
            start = n;
            assert(log_entries(chars@.skip(n as int)) =~= Seq::<Seq<char>>::empty());
        }
        assert(texts(ids@) + log_entries(chars@.skip(start as int)) =~= log_entries(chars@));
    }
    assert(log_entries(chars@.skip(n as int)) =~= Seq::<Seq<char>>::empty());
    assert(texts(ids@) + Seq::<Seq<char>>::empty() =~= texts(ids@));
    ids
}

/// `line_end` is the index `end` if no line feed stands before `end` and
/// one stands at it, or the text ends there.
pub proof fn lemma_line_end_is(text: Seq<char>, end: int)
    requires
        0 <= end <= text.len(),
        forall|i: int| 0 <= i < end ==> text[i] != '\n',
        end == text.len() || text[end] == '\n',
    ensures
        line_end(text) == end,
    decreases text.len(),
{
    if end > 0 {
        let rest = text.skip(1);
        assert forall|i: int| 0 <= i < end - 1 implies rest[i] != '\n' by {
            assert(rest[i] == text[i + 1]);
        }
        lemma_line_end_is(rest, end - 1);
    }
}

/// The first line ends inside the text or at its end, no line feed stands
/// in it, and one closes it unless the text ends there.
pub proof fn lemma_line_end_bounds(text: Seq<char>)
    ensures
        line_end(text) <= text.len(),
        forall|i: int| 0 <= i < line_end(text) ==> text[i] != '\n',
        line_end(text) < text.len() ==> text[line_end(text) as int] == '\n',
    decreases text.len(),
{
    if text.len() == 0 || text[0] == '\n' {
    } else {
        let rest = text.skip(1);
        lemma_line_end_bounds(rest);
        assert forall|i: int| 0 <= i < line_end(text) implies text[i] != '\n' by {
            if i > 0 {
                assert(rest[i - 1] == text[i]);
            }
        }
        if line_end(text) < text.len() {
            assert(rest[line_end(rest) as int] == text[line_end(text) as int]);
        }
    }
}

/// A valid identifier is its own trimmed text.
pub proof fn lemma_valid_identifier_is_trimmed(id: Seq<char>)
    requires
        valid_identifier(id),
    ensures
        trimmed(id) == id,
{
}

/// One append adds exactly one identifier, at the end: a log whose lines
/// are all closed, with the record of a valid identifier appended, holds
/// the identifiers it held before and then the new one.
pub proof fn lemma_append_adds_one_entry(content: Seq<char>, id: Seq<char>)
    requires
        terminated(content),
        valid_identifier(id),
    ensures
        log_entries(content + record_text(id)) == log_entries(content).push(id),
        terminated(content + record_text(id)),
    decreases content.len(),
{
    let record = record_text(id);
    let whole = content + record;
    if content.len() == 0 {
        assert(whole =~= record);
        assert forall|i: int| 0 <= i < id.len() implies record[i] != '\n' by {
            assert(record[i] == id[i]);
        }
        lemma_line_end_is(record, id.len() as int);
        assert(record.take(id.len() as int) =~= id);
        assert(record.skip(id.len() as int + 1) =~= Seq::<char>::empty());
        lemma_valid_identifier_is_trimmed(id);
        assert(log_entries(Seq::<char>::empty()) =~= Seq::<Seq<char>>::empty());
        assert(log_entries(record) =~= seq![id] + Seq::<Seq<char>>::empty());
        assert(log_entries(content).push(id) =~= seq![id]);
    } else {
        lemma_line_end_bounds(content);
        let end = line_end(content) as int;
        assert(end < content.len()) by {
            if end >= content.len() {
                assert(content[content.len() - 1] != '\n');
            }
        }
        assert forall|i: int| 0 <= i < end implies whole[i] != '\n' by {
            assert(whole[i] == content[i]);
        }
        assert(whole[end] == content[end]);
        lemma_line_end_is(whole, end);
        let rest = content.skip(end + 1);
        assert(whole.take(end) =~= content.take(end));
        assert(whole.skip(end + 1) =~= rest + record);
        assert(terminated(rest)) by {
            if rest.len() > 0 {
                assert(rest.last() == content.last());
            }
        }
        lemma_append_adds_one_entry(rest, id);
        let entry = trimmed(content.take(end));
        if entry.len() > 0 {
            assert(seq![entry] + log_entries(rest).push(id) =~= (seq![entry] + log_entries(
                rest,
            )).push(id));
        } else {
            assert(Seq::<Seq<char>>::empty() + log_entries(rest).push(id) =~= (Seq::<
                Seq<char>,
            >::empty() + log_entries(rest)).push(id));
        }
    }
}

/// What was appended is what is read back: a log to which valid
/// identifiers were appended one after the other holds exactly these, in
/// the order of the appends.
pub proof fn lemma_log_round_trip(ids: Seq<Seq<char>>)
    requires
        forall|i: int| 0 <= i < ids.len() ==> valid_identifier(#[trigger] ids[i]),
    ensures
        log_entries(log_text(ids)) == ids,
        terminated(log_text(ids)),
    decreases ids.len(),
{
    if ids.len() > 0 {
        let earlier = ids.drop_last();
        assert forall|i: int| 0 <= i < earlier.len() implies valid_identifier(
            #[trigger] earlier[i],
        ) by {
            assert(earlier[i] == ids[i]);
        }
        lemma_log_round_trip(earlier);
        lemma_append_adds_one_entry(log_text(earlier), ids.last());
        assert(earlier.push(ids.last()) =~= ids);
    }
}

/// Every identifier that is read back is a valid one: it is not empty, it
/// stands on one line, and it has no white space at its ends.
pub proof fn lemma_entries_are_valid(content: Seq<char>)
    ensures
        forall|i: int|
            0 <= i < log_entries(content).len() ==> valid_identifier(
                #[trigger] log_entries(content)[i],
            ),
    decreases content.len(),
{
    if content.len() > 0 {
        lemma_line_end_bounds(content);
        let end = line_end(content) as int;
        let line = content.take(end);
        let entry = trimmed(line);
        lemma_trimmed_is_stretch(line);
        if end < content.len() {
            lemma_entries_are_valid(content.skip(end + 1));
        }
        assert forall|i: int| 0 <= i < log_entries(content).len() implies valid_identifier(
            #[trigger] log_entries(content)[i],
        ) by {
            if entry.len() > 0 && i == 0 {
                assert(log_entries(content)[0] == entry);
            } else if entry.len() > 0 {
                assert(log_entries(content)[i] == log_entries(content.skip(end + 1))[i - 1]);
            } else {
                assert(log_entries(content)[i] == log_entries(content.skip(end + 1))[i]);
            }
        }
    }
}

} // verus!
