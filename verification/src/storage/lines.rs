use vstd::prelude::*;

verus! {

/// The byte that ends every record of a log.
pub const NEWLINE: u8 = 10;

/// A carriage return; one directly before the newline belongs to the line
/// ending, not to the record.
pub const CARRIAGE_RETURN: u8 = 13;

/// Whether `n` is the position of the first newline of `s`.
pub open spec fn is_first_newline(s: Seq<u8>, n: int) -> bool {
    &&& 0 <= n < s.len()
    &&& s[n] == NEWLINE
    &&& forall|j: int| 0 <= j < n ==> s[j] != NEWLINE
}

/// The position of the first newline of `s`, where `s` has one.
pub open spec fn first_newline(s: Seq<u8>) -> int {
    choose|n: int| is_first_newline(s, n)
}

/// A line without the carriage return that may end it.
pub open spec fn strip_cr(line: Seq<u8>) -> Seq<u8> {
    if line.len() > 0 && line.last() == CARRIAGE_RETURN {
        line.drop_last()
    } else {
        line
    }
}

/// The records of a log file: its content cut after every newline, each piece
/// without its line ending. Bytes after the last newline form a last record;
/// an empty file has none.
pub open spec fn lines_of(s: Seq<u8>) -> Seq<Seq<u8>>
    decreases s.len(),
{
    if s.len() == 0 {
        Seq::empty()
    } else if !s.contains(NEWLINE) {
        seq![strip_cr(s)]
    } else {
        let n = first_newline(s);
        if 0 <= n < s.len() {
            seq![strip_cr(s.take(n))] + lines_of(s.skip(n + 1))
        } else {
            Seq::empty()
        }
    }
}

/// The bytes of each vector, in order.
pub open spec fn contents(lines: Seq<Vec<u8>>) -> Seq<Seq<u8>> {
    lines.map_values(|l: Vec<u8>| l@)
}

/// What one append writes for a batch of serialized records: the records one
/// after the other, each followed by a newline.
pub open spec fn framed(records: Seq<Seq<u8>>) -> Seq<u8>
    decreases records.len(),
{
    if records.len() == 0 {
        Seq::empty()
    } else {
        framed(records.drop_last()) + records.last().push(NEWLINE)
    }
}

/// Whether a serialized record survives framing unchanged: it holds no
/// newline and does not end in a carriage return.
pub open spec fn is_one_line(record: Seq<u8>) -> bool {
    &&& !record.contains(NEWLINE)
    &&& record.len() > 0 ==> record.last() != CARRIAGE_RETURN
}

/// The first newline of `s` is at `n` when `s` has a newline there and none
/// before.
pub proof fn lemma_first_newline(s: Seq<u8>, n: int)
    requires
        is_first_newline(s, n),
    ensures
        first_newline(s) == n,
        s.contains(NEWLINE),
{
    let m = first_newline(s);
    assert(is_first_newline(s, m));
    if m < n {
        assert(s[m] != NEWLINE);
    }
    if n < m {
        assert(s[n] != NEWLINE);
    }
}

/// A one-line record followed by a newline and by more content reads back as
/// that record followed by the records of the remaining content.
pub proof fn lemma_lines_of_prepend(record: Seq<u8>, rest: Seq<u8>)
    requires
        is_one_line(record),
    ensures
        lines_of(record.push(NEWLINE) + rest) == seq![record] + lines_of(rest),
{
    let s = record.push(NEWLINE) + rest;
    let n = record.len() as int;
    assert(s[n] == NEWLINE);
    assert forall|j: int| 0 <= j < n implies s[j] != NEWLINE by {
        assert(s[j] == record[j]);
        if record[j] == NEWLINE {
            assert(record.contains(NEWLINE));
        }
    }
    lemma_first_newline(s, n);
    assert(s.take(n) =~= record);
    assert(s.skip(n + 1) =~= rest);
}

/// Reading back what was framed: a log made only of framed one-line records
/// splits into exactly those records, in order.
pub proof fn lemma_lines_of_framed(records: Seq<Seq<u8>>)
    requires
        forall|i: int| 0 <= i < records.len() ==> is_one_line(#[trigger] records[i]),
    ensures
        lines_of(framed(records)) == records,
{
    lemma_lines_of_framed_then(records, Seq::empty());
    assert(framed(records) + Seq::<u8>::empty() =~= framed(records));
    assert(records + lines_of(Seq::<u8>::empty()) =~= records);
}

/// Framed one-line records followed by more content read back as those
/// records followed by the records of the remaining content: an append never
/// disturbs what the log already holds.
pub proof fn lemma_lines_of_framed_then(records: Seq<Seq<u8>>, rest: Seq<u8>)
    requires
        forall|i: int| 0 <= i < records.len() ==> is_one_line(#[trigger] records[i]),
    ensures
        lines_of(framed(records) + rest) == records + lines_of(rest),
    decreases records.len(),
{
    if records.len() == 0 {
        assert(framed(records) + rest =~= rest);
        assert(records + lines_of(rest) =~= lines_of(rest));
    } else {
        let last = records.last();
        let init = records.drop_last();
        assert(is_one_line(records[records.len() - 1]));
        assert forall|i: int| 0 <= i < init.len() implies is_one_line(#[trigger] init[i]) by {
            assert(init[i] == records[i]);
        }
        lemma_lines_of_prepend(last, rest);
        lemma_lines_of_framed_then(init, last.push(NEWLINE) + rest);
        assert(framed(records) + rest =~= framed(init) + (last.push(NEWLINE) + rest));
        assert(init + (seq![last] + lines_of(rest)) =~= records + lines_of(rest));
    }
}

/// Appending batch after batch writes what one append of all their records
/// would have written.
pub proof fn lemma_framed_concat(first: Seq<Seq<u8>>, second: Seq<Seq<u8>>)
    ensures
        framed(first + second) == framed(first) + framed(second),
    decreases second.len(),
{
    if second.len() == 0 {
        assert(first + second =~= first);
        assert(framed(first) + framed(second) =~= framed(first));
    } else {
        lemma_framed_concat(first, second.drop_last());
        assert((first + second).drop_last() =~= first + second.drop_last());
        assert((first + second).last() == second.last());
        assert(framed(first + second) =~= framed(first) + framed(second));
    }
}

/// The log file gives back what was written to it: if every envelope is
/// encoded to a single line that decodes to the same envelope, then cutting
/// the framed encodings into lines and decoding each line yields the
/// envelopes that were written, in order, and no line fails to decode.
pub proof fn lemma_log_reads_back<E>(
    journal: Seq<E>,
    encode: spec_fn(E) -> Seq<u8>,
    decode: spec_fn(Seq<u8>) -> Option<E>,
)
    requires
        forall|e: E| is_one_line(#[trigger] encode(e)),
        forall|e: E| decode(#[trigger] encode(e)) == Some(e),
    ensures
        lines_of(framed(journal.map_values(encode))).map_values(decode) == journal.map_values(
            |e: E| Some(e),
        ),
{
    let written = journal.map_values(encode);
    lemma_lines_of_framed(written);
    assert(written.map_values(decode) =~= journal.map_values(|e: E| Some(e)));
}

/// Cuts the content of a log file into its records.
pub fn split_lines(content: &[u8]) -> (lines: Vec<Vec<u8>>)
    ensures
        contents(lines@) == lines_of(content@),
{
    let mut lines: Vec<Vec<u8>> = Vec::new();
    let mut start: usize = 0;
    let mut i: usize = 0;
    proof {
        assert(content@.skip(0) =~= content@);
        assert(contents(lines@) + lines_of(content@) =~= lines_of(content@));
    }
    while i < content.len()
        invariant
            start <= i <= content@.len(),
            forall|j: int| start <= j < i ==> content@[j] != NEWLINE,
            lines_of(content@) == contents(lines@) + lines_of(content@.skip(start as int)),
        decreases content@.len() - i,
    {
        if content[i] == NEWLINE {
            let line = strip_line(content, start, i);
            proof {
                let rest = content@.skip(start as int);
                let n = i - start;
                assert(rest[n] == NEWLINE);
                assert forall|j: int| 0 <= j < n implies rest[j] != NEWLINE by {
                    assert(rest[j] == content@[start + j]);
                }
                lemma_first_newline(rest, n);
                assert(rest.take(n) =~= content@.subrange(start as int, i as int));
                assert(rest.skip(n + 1) =~= content@.skip(i + 1));
                assert(contents(lines@.push(line)) =~= contents(lines@).push(line@));
                assert(contents(lines@).push(line@) + lines_of(content@.skip(i + 1)) =~= contents(
                    lines@,
                ) + (seq![line@] + lines_of(content@.skip(i + 1))));
            }
            lines.push(line);
            start = i + 1;
        }
        i += 1;
    }
    if start < content.len() {
        let line = strip_line(content, start, content.len());
        proof {
            let rest = content@.skip(start as int);
            assert(!rest.contains(NEWLINE)) by {
                if rest.contains(NEWLINE) {
                    let j = choose|j: int| 0 <= j < rest.len() && rest[j] == NEWLINE;
                    assert(content@[start + j] == NEWLINE);
                }
            }
            assert(rest =~= content@.subrange(start as int, content@.len() as int));
            assert(contents(lines@.push(line)) =~= contents(lines@).push(line@));
            assert(contents(lines@).push(line@) =~= contents(lines@) + seq![line@]);
        }
        lines.push(line);
    } else {
        proof {
            assert(content@.skip(start as int).len() == 0);
            assert(contents(lines@) + Seq::<Seq<u8>>::empty() =~= contents(lines@));
        }
    }
    lines
}

/// A copy of `content[from..to]` without the carriage return that may end it.
fn strip_line(content: &[u8], from: usize, to: usize) -> (line: Vec<u8>)
    requires
        from <= to <= content@.len(),
    ensures
        line@ == strip_cr(content@.subrange(from as int, to as int)),
{
    let end = if to > from && content[to - 1] == CARRIAGE_RETURN {
        to - 1
    } else {
        to
    };
    let mut line: Vec<u8> = Vec::new();
    let mut i: usize = from;
    while i < end
        invariant
            from <= i <= end <= to <= content@.len(),
            line@ == content@.subrange(from as int, i as int),
        decreases end - i,
    {
        line.push(content[i]);
        assert(line@ =~= content@.subrange(from as int, i + 1));
        i += 1;
    }
    proof {
        let whole = content@.subrange(from as int, to as int);
        if end < to {
            assert(whole.last() == content@[to - 1]);
            assert(whole.drop_last() =~= content@.subrange(from as int, end as int));
        }
    }
    line
}

/// The bytes of one append: the serialized records of a batch one after the
/// other, each followed by a newline. A batch costs one append, whatever its
/// size.
pub fn frame(records: &Vec<Vec<u8>>) -> (bytes: Vec<u8>)
    ensures
        bytes@ == framed(contents(records@)),
{
    let mut bytes: Vec<u8> = Vec::new();
    let mut i: usize = 0;
    while i < records.len()
        invariant
            i <= records@.len(),
            bytes@ == framed(contents(records@).take(i as int)),
        decreases records@.len() - i,
    {
        let record = &records[i];
        let ghost before = bytes@;
        let mut j: usize = 0;
        while j < record.len()
            invariant
                j <= record@.len(),
                bytes@ == before + record@.take(j as int),
            decreases record@.len() - j,
        {
            bytes.push(record[j]);
            assert(bytes@ =~= before + record@.take(j + 1));
            j += 1;
        }
        bytes.push(NEWLINE);
        proof {
            let all = contents(records@);
            assert(record@.take(record@.len() as int) =~= record@);
            assert(all.take(i + 1).drop_last() =~= all.take(i as int));
            assert(all.take(i + 1).last() == record@);
            assert(bytes@ =~= before + record@.push(NEWLINE));
        }
        i += 1;
    }
    proof {
        assert(contents(records@).take(records@.len() as int) =~= contents(records@));
    }
    bytes
}

} // verus!
