//! The counter file: how a count is read from its content, and how a new
//! count replaces it.
//!
//! The file holds one line of decimal text. Reading takes the first line,
//! drops the white space at its end and reads the rest as a number. Writing
//! is a fixed run of file operations that leaves the text of the count as the
//! whole content, whatever the file held before.

use crate::decimal::{
    decimal, lemma_decimal_bytes, lemma_parse_decimal_of_decimal, parse, parse_decimal, render,
};
use vstd::prelude::*;
use vstd::slice::slice_subrange;

verus! {

/// The byte that ends a line.
pub const NEWLINE: u8 = 10;

/// Where the line that starts at or before `from` ends: just behind the first
/// line end at or after `from`, or at the end of `content` if there is none.
pub open spec fn line_end(content: Seq<u8>, from: int) -> int
    decreases content.len() - from,
{
    if from >= content.len() {
        content.len() as int
    } else if content[from] == NEWLINE {
        from + 1
    } else {
        line_end(content, from + 1)
    }
}

/// The first line of `content`, with its line end if it has one.
pub open spec fn first_line(content: Seq<u8>) -> Seq<u8> {
    content.subrange(0, line_end(content, 0))
}

/// Whether `b` is white space in one byte: tab, line feed, vertical tab, form
/// feed, carriage return or space.
pub open spec fn is_space_byte(b: u8) -> bool {
    9 <= b <= 13 || b == 32
}

/// Whether `a b` is white space in two bytes of UTF-8: U+0085 or U+00A0.
pub open spec fn is_space_pair(a: u8, b: u8) -> bool {
    a == 0xC2 && (b == 0x85 || b == 0xA0)
}

/// Whether `a b c` is white space in three bytes of UTF-8: U+1680, U+2000 to
/// U+200A, U+2028, U+2029, U+202F, U+205F or U+3000.
pub open spec fn is_space_triple(a: u8, b: u8, c: u8) -> bool {
    ||| a == 0xE1 && b == 0x9A && c == 0x80
    ||| a == 0xE2 && b == 0x80 && (0x80 <= c <= 0x8A || c == 0xA8 || c == 0xA9 || c == 0xAF)
    ||| a == 0xE2 && b == 0x81 && c == 0x9F
    ||| a == 0xE3 && b == 0x80 && c == 0x80
}

/// How many bytes at the end of `s` make up one white space character; 0 if
/// `s` does not end in white space.
pub open spec fn space_len(s: Seq<u8>) -> nat {
    let n = s.len() as int;
    if n >= 1 && is_space_byte(s[n - 1]) {
        1
    } else if n >= 2 && is_space_pair(s[n - 2], s[n - 1]) {
        2
    } else if n >= 3 && is_space_triple(s[n - 3], s[n - 2], s[n - 1]) {
        3
    } else {
        0
    }
}

/// `s` without the white space at its end.
pub open spec fn trimmed(s: Seq<u8>) -> Seq<u8>
    decreases s.len(),
{
    if space_len(s) == 0 {
        s
    } else {
        trimmed(s.subrange(0, s.len() - space_len(s)))
    }
}

/// The count that a file with this content holds: what its first line spells
/// once the white space at its end is dropped. `None` if that is no signed
/// 64-bit number.
pub open spec fn stored_count(content: Seq<u8>) -> Option<int> {
    parse_decimal(trimmed(first_line(content)))
}

/// The end of the first line of `content`.
fn first_line_end(content: &[u8]) -> (end: usize)
    ensures
        end == line_end(content@, 0),
        end <= content@.len(),
{
    let n: usize = content.len();
    let mut i: usize = 0;
    while i < n
        invariant
            i <= n,
            n == content@.len(),
            line_end(content@, 0) == line_end(content@, i as int),
        decreases n - i,
    {
        if content[i] == NEWLINE {
            return i + 1;
        }
        i = i + 1;
    }
    i
}

/// How many bytes just before `end` make up one white space character.
fn space_len_before(s: &[u8], end: usize) -> (k: usize)
    requires
        end <= s@.len(),
    ensures
        k == space_len(s@.subrange(0, end as int)),
        k <= end,
{
    let ghost head = s@.subrange(0, end as int);
    if end >= 1 {
        let c: u8 = s[end - 1];
        assert(head[end - 1] == c);
        if (9 <= c && c <= 13) || c == 32 {
            return 1;
        }
        if end >= 2 {
            let b: u8 = s[end - 2];
            assert(head[end - 2] == b);
            if b == 0xC2 && (c == 0x85 || c == 0xA0) {
                return 2;
            }
            if end >= 3 {
                let a: u8 = s[end - 3];
                assert(head[end - 3] == a);
                if (a == 0xE1 && b == 0x9A && c == 0x80) || (a == 0xE2 && b == 0x80 && ((0x80 <= c
                    && c <= 0x8A) || c == 0xA8 || c == 0xA9 || c == 0xAF)) || (a == 0xE2 && b
                    == 0x81 && c == 0x9F) || (a == 0xE3 && b == 0x80 && c == 0x80) {
                    return 3;
                }
            }
        }
    }
    0
}

/// Reads the count that a file with this content holds.
pub fn read_count(content: &[u8]) -> (r: Option<i64>)
    ensures
        match r {
            Some(v) => stored_count(content@) == Some(v as int),
            None => stored_count(content@).is_none(),
        },
{
    let line: usize = first_line_end(content);
    let mut end: usize = line;
    let mut k: usize = space_len_before(content, end);
    while k > 0
        invariant
            end <= line <= content@.len(),
            k == space_len(content@.subrange(0, end as int)),
            k <= end,
            trimmed(content@.subrange(0, end as int)) == trimmed(content@.subrange(0, line as int)),
        decreases end,
    {
        assert(content@.subrange(0, end as int).subrange(0, end - k) =~= content@.subrange(
            0,
            end - k,
        ));
        end = end - k;
        k = space_len_before(content, end);
    }
    parse(slice_subrange(content, 0, end))
}

/// One operation on the open counter file.
#[derive(Debug, PartialEq, Eq)]
pub enum FileOp {
    /// Move the cursor to the start of the file.
    Rewind,
    /// Cut the file to length 0; the cursor stays where it is.
    Truncate,
    /// Write these bytes at the cursor.
    Write(Vec<u8>),
    /// Hand what was written to the operating system.
    Flush,
    /// Wait until the data has reached the storage medium.
    SyncData,
}

/// A file operation, with its bytes as a sequence.
pub enum Step {
    Rewind,
    Truncate,
    Write(Seq<u8>),
    Flush,
    SyncData,
}

impl View for FileOp {
    type V = Step;

    open spec fn view(&self) -> Step {
        match *self {
            FileOp::Rewind => Step::Rewind,
            FileOp::Truncate => Step::Truncate,
            FileOp::Write(bytes) => Step::Write(bytes@),
            FileOp::Flush => Step::Flush,
            FileOp::SyncData => Step::SyncData,
        }
    }
}

/// The steps that a list of file operations stands for.
pub open spec fn steps_of(ops: Seq<FileOp>) -> Seq<Step> {
    Seq::new(ops.len(), |i: int| ops[i]@)
}

/// The steps that put `count` in the file: back to the start, cut the file,
/// write the text of the count, flush; and, where `data_sync` is set, wait
/// for the storage medium.
pub open spec fn persist_steps(count: int, data_sync: bool) -> Seq<Step> {
    let rewrite = seq![Step::Rewind, Step::Truncate, Step::Write(decimal(count)), Step::Flush];
    if data_sync {
        rewrite.push(Step::SyncData)
    } else {
        rewrite
    }
}

/// An open file: its content and where its cursor stands.
pub struct FileState {
    pub content: Seq<u8>,
    pub cursor: nat,
}

/// `content`, filled up with zero bytes to the length `len` if it is shorter.
pub open spec fn padded(content: Seq<u8>, len: nat) -> Seq<u8> {
    if content.len() >= len {
        content
    } else {
        content + Seq::new((len - content.len()) as nat, |i: int| 0u8)
    }
}

/// What is in `content` from `from` on; nothing if it ends before.
pub open spec fn rest_from(content: Seq<u8>, from: nat) -> Seq<u8> {
    if from <= content.len() {
        content.subrange(from as int, content.len() as int)
    } else {
        Seq::empty()
    }
}

/// The file after one step. Writing replaces what is under the cursor and
/// moves the cursor behind what was written; a cursor behind the end leaves a
/// gap of zero bytes.
pub open spec fn file_after(file: FileState, step: Step) -> FileState {
    match step {
        Step::Rewind => FileState { cursor: 0, ..file },
        Step::Truncate => FileState { content: Seq::empty(), ..file },
        Step::Write(bytes) => FileState {
            content: padded(file.content, file.cursor).subrange(0, file.cursor as int) + bytes
                + rest_from(file.content, file.cursor + bytes.len()),
            cursor: file.cursor + bytes.len(),
        },
        Step::Flush => file,
        Step::SyncData => file,
    }
}

/// The file after the steps, taken from first to last.
pub open spec fn file_after_all(file: FileState, steps: Seq<Step>) -> FileState
    decreases steps.len(),
{
    if steps.len() == 0 {
        file
    } else {
        file_after(file_after_all(file, steps.drop_last()), steps.last())
    }
}

/// The operations that put `count` in the file.
pub fn persist_ops(count: i64, data_sync: bool) -> (ops: Vec<FileOp>)
    ensures
        steps_of(ops@) == persist_steps(count as int, data_sync),
{
    let mut ops: Vec<FileOp> = Vec::new();
    ops.push(FileOp::Rewind);
    ops.push(FileOp::Truncate);
    ops.push(FileOp::Write(render(count)));
    ops.push(FileOp::Flush);
    if data_sync {
        ops.push(FileOp::SyncData);
    }
    assert(steps_of(ops@) =~= persist_steps(count as int, data_sync));
    ops
}

/// The text of a count is its own first line, has no white space at its end,
/// and so holds the count.
pub proof fn lemma_stored_count_of_decimal(count: int)
    requires
        i64::MIN <= count <= i64::MAX,
    ensures
        stored_count(decimal(count)) == Some(count),
{
    let text = decimal(count);
    lemma_parse_decimal_of_decimal(count);
    lemma_decimal_bytes(count);
    lemma_line_end_without_newline(text, 0);
    assert(first_line(text) =~= text);
    assert(space_len(text) == 0);
}

/// Content without a line end from `from` on is one line to its end.
proof fn lemma_line_end_without_newline(content: Seq<u8>, from: int)
    requires
        0 <= from <= content.len(),
        forall|i: int| from <= i < content.len() ==> content[i] != NEWLINE,
    ensures
        line_end(content, from) == content.len(),
    decreases content.len() - from,
{
    if from < content.len() {
        lemma_line_end_without_newline(content, from + 1);
    }
}

/// Whatever the file held and wherever its cursor stood, after the steps that
/// put a count in it the file holds the text of that count and nothing else.
pub proof fn lemma_persist_replaces_content(file: FileState, count: int, data_sync: bool)
    ensures
        file_after_all(file, persist_steps(count, data_sync)).content == decimal(count),
{
    let rewrite = seq![Step::Rewind, Step::Truncate, Step::Write(decimal(count)), Step::Flush];
    let s1 = seq![Step::Rewind];
    let s2 = seq![Step::Rewind, Step::Truncate];
    let s3 = seq![Step::Rewind, Step::Truncate, Step::Write(decimal(count))];
    assert(s1.drop_last() =~= Seq::<Step>::empty());
    assert(s2.drop_last() =~= s1);
    assert(s3.drop_last() =~= s2);
    assert(rewrite.drop_last() =~= s3);
    let f0 = file_after_all(file, Seq::<Step>::empty());
    assert(f0 == file);
    let f1 = file_after_all(file, s1);
    assert(f1.cursor == 0);
    let f2 = file_after_all(file, s2);
    assert(f2.cursor == 0 && f2.content =~= Seq::<u8>::empty());
    let f3 = file_after_all(file, s3);
    assert(f3.content =~= decimal(count));
    let f4 = file_after_all(file, rewrite);
    assert(f4.content == decimal(count));
    if data_sync {
        assert(rewrite.push(Step::SyncData).drop_last() =~= rewrite);
    }
}

/// A count that was put in the file is the count that the file then holds.
pub proof fn lemma_persisted_count_reads_back(file: FileState, count: int, data_sync: bool)
    requires
        i64::MIN <= count <= i64::MAX,
    ensures
        stored_count(file_after_all(file, persist_steps(count, data_sync)).content) == Some(count),
{
    lemma_persist_replaces_content(file, count, data_sync);
    lemma_stored_count_of_decimal(count);
}

} // verus!
