//! From the bytes that a program printed to records and lines of text.

use vstd::prelude::*;
use vstd::utf8::*;
use crate::text;

verus! {

/// The text that a row of bytes stands for, with replacement characters for what is not UTF-8.
pub uninterp spec fn lossy(bytes: Seq<u8>) -> Seq<char>;

/// `String::from_utf8_lossy`: valid UTF-8 is decoded as it is. What stands for bytes that are not
/// UTF-8 is fixed by the bytes, and left open here.
#[verifier::external_body]
pub(crate) fn decode_lossy(bytes: &[u8]) -> (r: String)
    ensures
        r@ == lossy(bytes@),
        valid_utf8(bytes@) ==> r@ == decode_utf8(bytes@),
{
    String::from_utf8_lossy(bytes).into_owned()
}

/// The text that the bytes stand for, without the white space at its two ends.
pub fn trimmed_output(bytes: &[u8]) -> (r: String)
    ensures
        r@ == text::trimmed(lossy(bytes@)),
{
    let s = decode_lossy(bytes);
    text::trim(s.as_str())
}

/// The runs of bytes between the separators.
pub open spec fn byte_pieces(b: Seq<u8>, sep: u8) -> Seq<Seq<u8>>
    decreases b.len(),
{
    if b.len() == 0 {
        seq![Seq::empty()]
    } else {
        let before = byte_pieces(b.drop_last(), sep);
        if b.last() == sep {
            before.push(Seq::empty())
        } else {
            before.update(before.len() - 1, before.last().push(b.last()))
        }
    }
}

/// The records that end in a separator, and a last one without where it is not empty.
pub open spec fn records(b: Seq<u8>, sep: u8) -> Seq<Seq<u8>> {
    let parts = byte_pieces(b, sep);
    if parts.last().len() == 0 {
        parts.drop_last()
    } else {
        parts
    }
}

pub open spec fn byte_lists(v: Seq<Vec<u8>>) -> Seq<Seq<u8>> {
    v.map_values(|r: Vec<u8>| r@)
}

proof fn byte_lists_push(v: Seq<Vec<u8>>, r: Vec<u8>)
    ensures
        byte_lists(v.push(r)) == byte_lists(v).push(r@),
{
    assert(byte_lists(v.push(r)) =~= byte_lists(v).push(r@));
}

/// The records of a row of bytes.
pub fn split_records(b: &[u8], sep: u8) -> (r: Vec<Vec<u8>>)
    ensures
        byte_lists(r@) == records(b@, sep),
{
    let mut parts: Vec<Vec<u8>> = Vec::new();
    let mut current: Vec<u8> = Vec::new();
    let mut i: usize = 0;
    assert(byte_lists(parts@).push(current@) =~= byte_pieces(b@.take(0), sep));
    while i < b.len()
        invariant
            i <= b@.len(),
            byte_lists(parts@).push(current@) == byte_pieces(b@.take(i as int), sep),
        decreases b@.len() - i,
    {
        let byte = b[i];
        assert(b@.take(i + 1).drop_last() =~= b@.take(i as int));
        if byte == sep {
            proof {
                byte_lists_push(parts@, current);
            }
            parts.push(current);
            current = Vec::new();
            assert(current@ =~= Seq::<u8>::empty());
        } else {
            let ghost before = byte_lists(parts@).push(current@);
            current.push(byte);
            assert(byte_lists(parts@).push(current@) =~= before.update(
                before.len() - 1,
                before.last().push(byte),
            ));
        }
        i = i + 1;
    }
    assert(b@.take(i as int) =~= b@);
    let ghost all = byte_lists(parts@).push(current@);
    if current.len() == 0 {
        assert(all.drop_last() =~= byte_lists(parts@));
    } else {
        proof {
            byte_lists_push(parts@, current);
        }
        parts.push(current);
    }
    parts
}

/// A line without the carriage return before its line feed.
pub open spec fn without_return(line: Seq<char>) -> Seq<char> {
    if line.len() > 0 && line.last() == '\r' {
        line.drop_last()
    } else {
        line
    }
}

/// The lines of a text: each ends in a line feed or a carriage return and a line feed, which are
/// not part of it; the last may have none, and then keeps what it ends in.
pub open spec fn line_list(s: Seq<char>) -> Seq<Seq<char>> {
    let parts = text::pieces(s, '\n');
    let full = parts.drop_last().map_values(|l: Seq<char>| without_return(l));
    if parts.last().len() == 0 {
        full
    } else {
        full.push(parts.last())
    }
}

/// The lines of a text.
pub fn lines(s: &str) -> (r: Vec<String>)
    ensures
        text::texts(r@) == line_list(s@),
{
    let parts = text::split(s, '\n');
    let n = parts.len();
    let mut r: Vec<String> = Vec::new();
    let mut i: usize = 0;
    let ghost want = text::pieces(s@, '\n').drop_last().map_values(|l: Seq<char>| without_return(l));
    while i + 1 < n
        invariant
            n == parts@.len(),
            n >= 1,
            i <= n - 1,
            text::texts(parts@) == text::pieces(s@, '\n'),
            want == text::pieces(s@, '\n').drop_last().map_values(|l: Seq<char>| without_return(l)),
            text::texts(r@) == want.take(i as int),
        decreases n - i,
    {
        let c = text::chars_of(parts[i].as_str());
        assert(text::texts(parts@)[i as int] == c@);
        let line = if c.len() > 0 && c[c.len() - 1] == '\r' {
            let l = text::text_of(c.as_slice(), 0, c.len() - 1);
            assert(l@ =~= c@.drop_last());
            l
        } else {
            parts[i].clone()
        };
        proof {
            text::texts_push(r@, line);
            assert(want.take(i + 1) =~= want.take(i as int).push(line@));
        }
        r.push(line);
        i = i + 1;
    }
    assert(want.take(i as int) =~= want);
    assert(text::texts(parts@)[n - 1] == parts@[n - 1]@);
    if !parts[n - 1].as_str().is_empty() {
        let last = parts[n - 1].clone();
        proof {
            text::texts_push(r@, last);
        }
        r.push(last);
    }
    r
}

// ---------------------------------------------------------------------------------------------
// Laws

/// Lines that end in a line feed, with or without a carriage return, are read as they were written.
pub proof fn lines_are_read(lines: Seq<Seq<char>>, ended: Seq<Seq<char>>)
    requires
        lines.len() > 0,
        ended.len() == lines.len(),
        forall|i: int| 0 <= i < lines.len() ==> !(#[trigger] lines[i]).contains('\n'),
        forall|i: int|
            0 <= i < lines.len() ==> (#[trigger] lines[i]).len() == 0 || lines[i].last() != '\r',
        forall|i: int|
            0 <= i < lines.len() ==> #[trigger] ended[i] == lines[i] || ended[i] == lines[i].push(
                '\r',
            ),
    ensures
        line_list(text::joined(ended, seq!['\n']) + seq!['\n']) == lines,
{
    let none = Seq::<char>::empty();
    let all = ended.push(none);
    assert forall|i: int| 0 <= i < all.len() implies !(#[trigger] all[i]).contains('\n') by {
        if i < ended.len() {
            assert(ended[i] == lines[i] || ended[i] == lines[i].push('\r'));
            if ended[i].contains('\n') {
                let j = choose|j: int| 0 <= j < ended[i].len() && ended[i][j] == '\n';
                assert(lines[i][j] == '\n');
                assert(lines[i].contains('\n'));
            }
        }
    }
    text::joined_parts_come_apart(all, '\n');
    assert(all.drop_last() =~= ended);
    assert(text::joined(all, seq!['\n']) =~= text::joined(ended, seq!['\n']) + seq!['\n']);
    let read = line_list(text::joined(ended, seq!['\n']) + seq!['\n']);
    assert forall|i: int| 0 <= i < lines.len() implies #[trigger] read[i] == lines[i] by {
        assert(read[i] == without_return(ended[i]));
        assert(ended[i] == lines[i] || ended[i] == lines[i].push('\r'));
        if ended[i] == lines[i].push('\r') {
            assert(ended[i].drop_last() =~= lines[i]);
        }
    }
    assert(read =~= lines);
}

/// The records one after the other, each followed by what ends it.
pub open spec fn written(records: Seq<Seq<u8>>, end: u8) -> Seq<u8>
    decreases records.len(),
{
    if records.len() == 0 {
        Seq::empty()
    } else {
        written(records.drop_last(), end) + records.last() + seq![end]
    }
}

proof fn plain_bytes_extend(b: Seq<u8>, more: Seq<u8>, sep: u8)
    requires
        !more.contains(sep),
    ensures
        byte_pieces(b, sep).len() >= 1,
        byte_pieces(b + more, sep) == byte_pieces(b, sep).update(
            byte_pieces(b, sep).len() - 1,
            byte_pieces(b, sep).last() + more,
        ),
    decreases b.len() + more.len(),
{
    if more.len() == 0 {
        assert(b + more =~= b);
        if b.len() > 0 {
            let none = Seq::<u8>::empty();
            assert(!none.contains(sep));
            plain_bytes_extend(b.drop_last(), none, sep);
        }
        assert(byte_pieces(b, sep).last() + more =~= byte_pieces(b, sep).last());
        assert(byte_pieces(b, sep).update(
            byte_pieces(b, sep).len() - 1,
            byte_pieces(b, sep).last() + more,
        ) =~= byte_pieces(b, sep));
    } else {
        let front = more.drop_last();
        assert(!front.contains(sep)) by {
            if front.contains(sep) {
                let i = choose|i: int| 0 <= i < front.len() && front[i] == sep;
                assert(more[i] == sep);
            }
        }
        assert(more[more.len() - 1] != sep);
        plain_bytes_extend(b, front, sep);
        assert((b + more).drop_last() =~= b + front);
        let before = byte_pieces(b + front, sep);
        assert(before.last().push(more.last()) =~= byte_pieces(b, sep).last() + more);
        assert(byte_pieces(b + more, sep) =~= byte_pieces(b, sep).update(
            byte_pieces(b, sep).len() - 1,
            byte_pieces(b, sep).last() + more,
        ));
    }
}

proof fn written_pieces(all: Seq<Seq<u8>>, end: u8)
    requires
        forall|i: int| 0 <= i < all.len() ==> !(#[trigger] all[i]).contains(end),
    ensures
        byte_pieces(written(all, end), end) == all.push(Seq::empty()),
    decreases all.len(),
{
    if all.len() > 0 {
        let front = all.drop_last();
        assert forall|i: int| 0 <= i < front.len() implies !(#[trigger] front[i]).contains(end) by {
            assert(front[i] == all[i]);
        }
        written_pieces(front, end);
        assert(!all[all.len() - 1].contains(end));
        plain_bytes_extend(written(front, end), all.last(), end);
        let b = written(front, end) + all.last();
        assert((b + seq![end]).drop_last() =~= b);
        assert(Seq::<u8>::empty() + all.last() =~= all.last());
        assert(byte_pieces(b, end) =~= all);
        assert(byte_pieces(b + seq![end], end) =~= all.push(Seq::empty()));
    } else {
        assert(byte_pieces(written(all, end), end) =~= all.push(Seq::empty()));
    }
}

/// Records that do not hold what ends them are read as they were written.
pub proof fn records_are_read(all: Seq<Seq<u8>>, end: u8)
    requires
        forall|i: int| 0 <= i < all.len() ==> !(#[trigger] all[i]).contains(end),
    ensures
        records(written(all, end), end) == all,
{
    written_pieces(all, end);
    assert(all.push(Seq::<u8>::empty()).drop_last() =~= all);
}

} // verus!
