//! Framing of a stream of newline-delimited text that arrives in chunks.
//!
//! A chunk may end in the middle of a line. The buffer keeps the unfinished
//! end of the text and hands out only whole lines, each with its newline.

use vstd::prelude::*;

verus! {

/// The text that `String::from_utf8_lossy` makes of bytes.
pub uninterp spec fn lossy_text(bytes: Seq<u8>) -> Seq<char>;

/// Decodes a chunk with `String::from_utf8_lossy`. The contract names the
/// characters of the text that comes out, and claims that they depend on the
/// bytes alone.
#[verifier::external_body]
fn decode_lossy(chunk: &Vec<u8>) -> (text: Vec<char>)
    ensures
        text@ == lossy_text(chunk@),
{
    String::from_utf8_lossy(chunk.as_slice()).chars().collect()
}

/// The place just after the last newline of `text`, or 0 where it has none.
pub open spec fn cut_point(text: Seq<char>) -> int
    decreases text.len(),
{
    if text.len() == 0 {
        0
    } else if text.last() == '\n' {
        text.len() as int
    } else {
        cut_point(text.drop_last())
    }
}

/// What a buffer that held `remainder` does with `text`: the whole lines
/// that it hands out, if there is one, and what it holds afterwards.
pub open spec fn after_push(remainder: Seq<char>, text: Seq<char>) -> (
    Option<Seq<char>>,
    Seq<char>,
) {
    let all = remainder + text;
    let cut = cut_point(all);
    (
        if cut == 0 {
            None
        } else {
            Some(all.take(cut))
        },
        all.skip(cut),
    )
}

/// What became of a chunk.
pub enum Framed {
    /// The chunk was empty: the stream is over.
    Stop,
    /// No line is whole yet.
    Wait,
    /// The whole lines that are ready, each with its newline.
    Lines(Vec<char>),
}

/// The unfinished end of the text that has arrived.
pub struct LineBuffer {
    remainder: Vec<char>,
}

impl View for LineBuffer {
    type V = Seq<char>;

    closed spec fn view(&self) -> Seq<char> {
        self.remainder@
    }
}

impl LineBuffer {
    /// A buffer that holds nothing.
    pub fn new() -> (buffer: Self)
        ensures
            buffer@ == Seq::<char>::empty(),
    {
        LineBuffer { remainder: Vec::new() }
    }

    /// Takes in `text` and hands out the whole lines that are ready: what
    /// the buffer held and `text`, up to the last newline. What follows the
    /// last newline stays in the buffer.
    pub fn push_text(&mut self, text: Vec<char>) -> (lines: Option<Vec<char>>)
        ensures
            final(self)@ == after_push(old(self)@, text@).1,
            match lines {
                Some(ready) => after_push(old(self)@, text@).0 == Some(ready@),
                None => after_push(old(self)@, text@).0.is_none(),
            },
    {
        let mut text = text;
        self.remainder.append(&mut text);
        let ghost all = self.remainder@;
        let mut cut: usize = self.remainder.len();
        assert(all.take(cut as int) =~= all);
        while cut > 0 && self.remainder[cut - 1] != '\n'
            invariant
                self.remainder@ == all,
                cut <= all.len(),
                cut_point(all) == cut_point(all.take(cut as int)),
            decreases cut,
        {
            assert(all.take(cut as int).drop_last() =~= all.take(cut - 1));
            cut -= 1;
        }
        if cut == 0 {
            assert(all.skip(0) =~= all);
            None
        } else {
            let mut ready = self.remainder.split_off(cut);
            std::mem::swap(&mut ready, &mut self.remainder);
            assert(ready@ =~= all.take(cut as int));
            assert(self.remainder@ =~= all.skip(cut as int));
            Some(ready)
        }
    }

    /// Takes in a chunk of bytes. An empty chunk ends the stream and leaves
    /// the buffer as it is. Any other chunk is decoded, bytes that are no
    /// text replaced, and handled as [`LineBuffer::push_text`] handles the
    /// decoded text.
    pub fn push_chunk(&mut self, chunk: &Vec<u8>) -> (out: Framed)
        ensures
            chunk@.len() == 0 ==> out is Stop && final(self)@ == old(self)@,
            chunk@.len() > 0 ==> final(self)@ == after_push(old(self)@, lossy_text(chunk@)).1,
            chunk@.len() > 0 ==> match out {
                Framed::Stop => false,
                Framed::Wait => after_push(old(self)@, lossy_text(chunk@)).0.is_none(),
                Framed::Lines(ready) => after_push(old(self)@, lossy_text(chunk@)).0 == Some(
                    ready@,
                ),
            },
    {
        if chunk.len() == 0 {
            return Framed::Stop;
        }
        match self.push_text(decode_lossy(chunk)) {
            Some(ready) => Framed::Lines(ready),
            None => Framed::Wait,
        }
    }
}

/// The cut point lies in the text, just after a newline unless it is 0, and
/// no newline follows it.
pub proof fn lemma_cut_point(text: Seq<char>)
    ensures
        0 <= cut_point(text) <= text.len(),
        cut_point(text) > 0 ==> text[cut_point(text) - 1] == '\n',
        forall|i: int| cut_point(text) <= i < text.len() ==> text[i] != '\n',
    decreases text.len(),
{
    if text.len() > 0 && text.last() != '\n' {
        let front = text.drop_last();
        lemma_cut_point(front);
        assert forall|i: int| cut_point(text) <= i < text.len() implies text[i] != '\n' by {
            if i < front.len() {
                assert(front[i] == text[i]);
            }
        }
    }
}

/// Nothing is lost and nothing is handed out early: the lines that come out
/// and what stays behind are together what the buffer held and the new
/// text; the lines end with a newline; what stays behind has none.
pub proof fn lemma_push_keeps_text(remainder: Seq<char>, text: Seq<char>)
    ensures
        ({
            let (lines, rest) = after_push(remainder, text);
            &&& match lines {
                Some(ready) => ready.len() > 0 && ready.last() == '\n' && ready + rest == remainder
                    + text,
                None => rest == remainder + text,
            }
            &&& forall|i: int| 0 <= i < rest.len() ==> rest[i] != '\n'
        }),
{
    let all = remainder + text;
    lemma_cut_point(all);
    let cut = cut_point(all);
    assert(all.take(cut) + all.skip(cut) =~= all);
    assert(all.skip(0) =~= all);
}

} // verus!
