//! What a pane keeps of its child's output: bytes read from the child are
//! stripped of escape sequences and cut into lines, and the last lines are
//! held for the screen. Reading from the child and sharing the buffer
//! between threads is the caller's part.

use crate::layout::geometry::Rect;
use crate::text::{chars_of, find_char, find_from, string_of};
use std::collections::VecDeque;
use vstd::prelude::*;
use vstd::utf8::encode_utf8;

verus! {

/// How many lines a pane keeps.
pub const OUTPUT_LIMIT: usize = 2000;

/// How many characters of a line that has not ended yet are kept.
pub const PENDING_CHAR_LIMIT: usize = 8192;

/// The bytes that `strip_ansi_escapes::strip` leaves of `data`.
pub uninterp spec fn ansi_stripped(data: Seq<u8>) -> Seq<u8>;

/// The text that `String::from_utf8_lossy` reads in `bytes`.
pub uninterp spec fn utf8_lossy(bytes: Seq<u8>) -> Seq<char>;

/// `strip_ansi_escapes::strip`: runs the bytes through a terminal parser
/// that starts afresh on each call and keeps what it prints, and line feeds.
/// What it returns depends on the bytes alone; the contract gives it a name
/// and says no more of it.
#[verifier::external_body]
fn strip_escapes(data: &[u8]) -> (stripped: Vec<u8>)
    ensures
        stripped@ == ansi_stripped(data@),
{
    strip_ansi_escapes::strip(data)
}

/// `String::from_utf8_lossy` of the standard library: the text in the
/// bytes, with a replacement character where they are not UTF-8. What it
/// returns depends on the bytes alone; the contract gives it a name and says
/// no more of it.
#[verifier::external_body]
fn lossy_text(bytes: &[u8]) -> (text: String)
    ensures
        text@ == utf8_lossy(bytes@),
{
    String::from_utf8_lossy(bytes).into_owned()
}

/// `s` without its carriage returns.
pub open spec fn without_cr(s: Seq<char>) -> Seq<char> {
    s.filter(|c: char| c != '\r')
}

/// The lines that end in `s`, each without its line feed, and what follows
/// the last line feed.
pub open spec fn split_lines(s: Seq<char>) -> (Seq<Seq<char>>, Seq<char>)
    decreases s.len(),
{
    match find_char(s, '\n') {
        None => (Seq::empty(), s),
        Some(i) => {
            if 0 <= i < s.len() {
                let rest = split_lines(s.skip(i + 1));
                (seq![s.take(i)] + rest.0, rest.1)
            } else {
                (Seq::empty(), s)
            }
        },
    }
}

/// The last `limit` items of `s`; all of `s` where it holds no more.
pub open spec fn last_of<T>(s: Seq<T>, limit: int) -> Seq<T> {
    if s.len() > limit && limit >= 0 {
        s.skip(s.len() - limit)
    } else {
        s
    }
}

/// What new text makes of a line that has not ended yet: the text, without
/// carriage returns, is put behind what was pending; the lines that end in
/// it are complete, and what follows the last line feed is pending from now
/// on, cut to its last `PENDING_CHAR_LIMIT` characters.
pub open spec fn take_lines_spec(pending: Seq<char>, text: Seq<char>) -> (Seq<Seq<char>>, Seq<char>) {
    let cut = split_lines(pending + without_cr(text));
    (cut.0, last_of(cut.1, PENDING_CHAR_LIMIT as int))
}

/// The text that a chunk read from the child stands for: the chunk is read
/// as UTF-8, stripped of escape sequences, and read as UTF-8 again.
pub open spec fn chunk_text(chunk: Seq<u8>) -> Seq<char> {
    utf8_lossy(ansi_stripped(encode_utf8(utf8_lossy(chunk))))
}

/// The character sequences of a sequence of strings.
pub open spec fn texts(lines: Seq<String>) -> Seq<Seq<char>> {
    Seq::new(lines.len(), |i: int| lines[i]@)
}

/// Puts `text` behind the pending line and takes out the lines that are
/// complete now.
pub fn take_lines(pending: &mut String, text: &str) -> (lines: Vec<String>)
    ensures
        texts(lines@) == take_lines_spec(old(pending)@, text@).0,
        final(pending)@ == take_lines_spec(old(pending)@, text@).1,
{
    let mut combined = chars_of(pending.as_str());
    let new = chars_of(text);
    let mut k: usize = 0;
    while k < new.len()
        invariant
            k <= new.len(),
            new@ == text@,
            combined@ == old(pending)@ + without_cr(new@.take(k as int)),
        decreases new.len() - k,
    {
        proof {
            let upto = new@.take(k + 1);
            assert(upto.drop_last() == new@.take(k as int));
            assert(upto.last() == new@[k as int]);
            reveal(Seq::filter);
        }
        if new[k] != '\r' {
            combined.push(new[k]);
        }
        k += 1;
    }
    proof {
        assert(new@.take(new.len() as int) == new@);
    }
    let ghost whole = combined@;
    let mut lines: Vec<String> = Vec::new();
    let mut start: usize = 0;
    proof {
        assert(whole.skip(0) == whole);
        assert(texts(lines@) =~= Seq::<Seq<char>>::empty());
    }
    let mut more = true;
    while more
        invariant
            start <= combined.len(),
            combined@ == whole,
            split_lines(whole).0 == texts(lines@) + split_lines(whole.skip(start as int)).0,
            split_lines(whole).1 == split_lines(whole.skip(start as int)).1,
            !more ==> find_char(whole.skip(start as int), '\n') is None,
        decreases
                combined.len() - start,
                if more {
                    1int
                } else {
                    0int
                },
    {
        let ghost rest = whole.skip(start as int);
        match find_from(&combined, start, '\n') {
            None => {
                more = false;
            },
            Some(i) => {
                let line = string_of(&combined, start, i);
                proof {
                    assert(whole.subrange(start as int, i as int) == rest.take(i - start));
                    assert(rest.skip(i - start + 1) == whole.skip(i + 1));
                    assert(texts(lines@.push(line)) =~= texts(lines@) + seq![line@]);
                }
                lines.push(line);
                start = i + 1;
            },
        }
    }
    let len = combined.len();
    let from = if len - start > PENDING_CHAR_LIMIT {
        len - PENDING_CHAR_LIMIT
    } else {
        start
    };
    proof {
        let rest = whole.skip(start as int);
        assert(split_lines(rest) == (Seq::<Seq<char>>::empty(), rest));
        assert(texts(lines@) + Seq::<Seq<char>>::empty() =~= texts(lines@));
        assert(whole.subrange(from as int, len as int) =~= last_of(
            rest,
            PENDING_CHAR_LIMIT as int,
        ));
    }
    *pending = string_of(&combined, from, len);
    lines
}

/// Takes a chunk of bytes read from the child: strips its escape sequences
/// and carriage returns, puts the text behind the pending line, and takes
/// out the lines that are complete now.
pub fn ingest(pending: &mut String, chunk: &[u8]) -> (lines: Vec<String>)
    ensures
        texts(lines@) == take_lines_spec(old(pending)@, chunk_text(chunk@)).0,
        final(pending)@ == take_lines_spec(old(pending)@, chunk_text(chunk@)).1,
{
    let read = lossy_text(chunk);
    let stripped = strip_escapes(read.as_str().as_bytes());
    let text = lossy_text(stripped.as_slice());
    take_lines(pending, text.as_str())
}

/// The lines a pane holds for the screen: the last `OUTPUT_LIMIT` that its
/// child wrote, oldest first.
pub struct OutputBuffer {
    lines: VecDeque<String>,
}

impl View for OutputBuffer {
    type V = Seq<Seq<char>>;

    closed spec fn view(&self) -> Seq<Seq<char>> {
        texts(self.lines@)
    }
}

impl OutputBuffer {
    /// A buffer without lines.
    pub fn new() -> (buffer: OutputBuffer)
        ensures
            buffer@ == Seq::<Seq<char>>::empty(),
    {
        let buffer = OutputBuffer { lines: VecDeque::new() };
        assert(buffer@ =~= Seq::<Seq<char>>::empty());
        buffer
    }

    /// How many lines the buffer holds.
    pub fn len(&self) -> (n: usize)
        ensures
            n == self@.len(),
    {
        self.lines.len()
    }

    /// Adds a line. A buffer that is full drops its oldest line for it, so
    /// that it never holds more than `OUTPUT_LIMIT`.
    pub fn push_line(&mut self, line: String)
        ensures
            final(self)@ == last_of(old(self)@.push(line@), OUTPUT_LIMIT as int),
            final(self)@.len() <= OUTPUT_LIMIT,
    {
        let ghost before = self.lines@;
        while self.lines.len() >= OUTPUT_LIMIT
            invariant
                self.lines@.len() <= before.len(),
                self.lines@ == before.skip(before.len() - self.lines@.len()),
                before.len() >= OUTPUT_LIMIT ==> self.lines@.len() >= OUTPUT_LIMIT - 1,
                before.len() < OUTPUT_LIMIT ==> self.lines@.len() == before.len(),
            decreases self.lines@.len(),
        {
            let ghost held = self.lines@;
            let _ = self.lines.pop_front();
            proof {
                assert(self.lines@ == held.drop_first());
                assert(self.lines@ =~= before.skip(before.len() - self.lines@.len()));
            }
        }
        self.lines.push_back(line);
        proof {
            assert(texts(before.push(line)) =~= texts(before).push(line@));
            assert(texts(self.lines@) =~= last_of(texts(before).push(line@), OUTPUT_LIMIT as int));
        }
    }

    /// Adds lines, oldest first.
    pub fn push_lines(&mut self, lines: &Vec<String>)
        ensures
            final(self)@ == if lines@.len() == 0 {
                old(self)@
            } else {
                last_of(old(self)@ + texts(lines@), OUTPUT_LIMIT as int)
            },
    {
        let ghost before = self@;
        let ghost added = texts(lines@);
        let mut i: usize = 0;
        while i < lines.len()
            invariant
                i <= lines.len(),
                added == texts(lines@),
                i == 0 ==> self@ == before,
                i > 0 ==> self@ == last_of(before + added.take(i as int), OUTPUT_LIMIT as int),
            decreases lines.len() - i,
        {
            let line = lines[i].clone();
            proof {
                assert(before + added.take(i + 1) =~= (before + added.take(i as int)).push(line@));
                assert(before + added.take(0) =~= before);
                lemma_last_of_push(before + added.take(i as int), line@, OUTPUT_LIMIT as int);
            }
            self.push_line(line);
            i += 1;
        }
        proof {
            assert(added.take(lines.len() as int) =~= added);
        }
    }

    /// The last `height` lines, oldest first: what a pane of that height
    /// shows.
    pub fn lines_for_height(&self, height: usize) -> (lines: Vec<String>)
        ensures
            texts(lines@) == last_of(self@, height as int),
    {
        let total = self.lines.len();
        let start = if total > height {
            total - height
        } else {
            0
        };
        let mut lines: Vec<String> = Vec::new();
        let mut i: usize = start;
        while i < total
            invariant
                start <= i <= total,
                total == self.lines@.len(),
                texts(lines@) == texts(self.lines@).subrange(start as int, i as int),
            decreases total - i,
        {
            let line = self.lines[i].clone();
            proof {
                assert(texts(lines@.push(line)) =~= texts(lines@).push(line@));
                assert(texts(self.lines@).subrange(start as int, i + 1) =~= texts(
                    self.lines@,
                ).subrange(start as int, i as int).push(self.lines@[i as int]@));
            }
            lines.push(line);
            i += 1;
        }
        proof {
            assert(texts(self.lines@).subrange(start as int, total as int) =~= last_of(
                self@,
                height as int,
            ));
        }
        lines
    }
}

/// Keeping the last lines after each line added is keeping the last lines
/// of all.
pub proof fn lemma_last_of_push<T>(s: Seq<T>, item: T, limit: int)
    requires
        limit >= 1,
    ensures
        last_of(last_of(s, limit).push(item), limit) == last_of(s.push(item), limit),
{
    assert(last_of(last_of(s, limit).push(item), limit) =~= last_of(s.push(item), limit));
}

/// The size of the terminal that a pane's child sees: the pane's rectangle
/// without its border, as rows and columns.
pub open spec fn pane_size_spec(rect: Rect) -> (u16, u16) {
    (
        if rect.height >= 2 {
            (rect.height - 2) as u16
        } else {
            0u16
        },
        if rect.width >= 2 {
            (rect.width - 2) as u16
        } else {
            0u16
        },
    )
}

/// The rows and columns inside the border of a pane drawn in `rect`.
pub fn pane_size(rect: Rect) -> (size: (u16, u16))
    ensures
        size == pane_size_spec(rect),
{
    (
        if rect.height >= 2 {
            rect.height - 2
        } else {
            0
        },
        if rect.width >= 2 {
            rect.width - 2
        } else {
            0
        },
    )
}

} // verus!
