//! Line framing: a byte stream cut at every newline, with a bound on the
//! length of a line.

use crate::protocol::error::ProtocolError;
use vstd::prelude::*;

verus! {

/// The longest line accepted, newline not counted: 16 KiB.
pub const MAX_LINE: usize = 16384;

/// The newline byte.
pub const SPLIT: u8 = 10;

/// The complete lines of a stream and what follows the last newline, or
/// `None` if some line, complete or not, is longer than [`MAX_LINE`].
pub open spec fn frames(stream: Seq<u8>) -> Option<(Seq<Seq<u8>>, Seq<u8>)>
    decreases stream.len(),
{
    if stream.len() == 0 {
        Some((Seq::empty(), Seq::empty()))
    } else {
        match frames(stream.drop_last()) {
            None => None,
            Some((lines, rest)) => if stream.last() == SPLIT {
                Some((lines.push(rest), Seq::empty()))
            } else if rest.len() >= MAX_LINE {
                None
            } else {
                Some((lines, rest.push(stream.last())))
            },
        }
    }
}

/// The lines written out again, each followed by a newline.
pub open spec fn joined(lines: Seq<Seq<u8>>) -> Seq<u8>
    decreases lines.len(),
{
    if lines.len() == 0 {
        Seq::empty()
    } else {
        joined(lines.drop_last()) + lines.last() + seq![SPLIT]
    }
}

/// A piece of a stream between two newlines: short enough, and without a
/// newline of its own.
pub open spec fn is_piece(piece: Seq<u8>) -> bool {
    &&& piece.len() <= MAX_LINE
    &&& forall|i: int| 0 <= i < piece.len() ==> piece[i] != SPLIT
}

/// What framing returns is the stream and nothing else: the lines joined by
/// newlines, then the rest, give the stream back, and neither a line nor the
/// rest holds a newline or exceeds the bound.
pub proof fn lemma_frames_sound(stream: Seq<u8>)
    requires
        frames(stream) is Some,
    ensures
        joined(frames(stream).unwrap().0) + frames(stream).unwrap().1 == stream,
        is_piece(frames(stream).unwrap().1),
        forall|i: int|
            0 <= i < frames(stream).unwrap().0.len() ==> is_piece(
                #[trigger] frames(stream).unwrap().0[i],
            ),
    decreases stream.len(),
{
    if stream.len() == 0 {
        assert(joined(Seq::<Seq<u8>>::empty()) + Seq::<u8>::empty() =~= stream);
    } else {
        let before = stream.drop_last();
        lemma_frames_sound(before);
        let (lines, rest) = frames(before).unwrap();
        if stream.last() == SPLIT {
            let now = lines.push(rest);
            assert(now.drop_last() =~= lines);
            assert(joined(now) + Seq::<u8>::empty() =~= (joined(lines) + rest).push(SPLIT));
            assert(before.push(SPLIT) =~= stream);
            assert forall|i: int| 0 <= i < now.len() implies is_piece(#[trigger] now[i]) by {
                if i < lines.len() {
                    assert(now[i] == lines[i]);
                }
            }
        } else {
            assert(joined(lines) + rest.push(stream.last()) =~= (joined(lines) + rest).push(
                stream.last(),
            ));
            assert(before.push(stream.last()) =~= stream);
        }
    }
}

/// A stream with an overlong line stays refused, whatever follows.
pub proof fn lemma_frames_refused(stream: Seq<u8>, k: int)
    requires
        0 <= k <= stream.len(),
        frames(stream.take(k)) is None,
    ensures
        frames(stream) is None,
    decreases stream.len() - k,
{
    if k == stream.len() {
        assert(stream.take(k) =~= stream);
    } else {
        assert(stream.take(k + 1).drop_last() =~= stream.take(k));
        lemma_frames_refused(stream, k + 1);
    }
}

/// A piece alone frames as no line and itself as the rest.
pub proof fn lemma_frames_piece(piece: Seq<u8>)
    requires
        is_piece(piece),
    ensures
        frames(piece) == Some((Seq::<Seq<u8>>::empty(), piece)),
    decreases piece.len(),
{
    if piece.len() > 0 {
        lemma_frames_piece(piece.drop_last());
        assert(piece.drop_last().push(piece.last()) =~= piece);
    } else {
        assert(piece =~= Seq::<u8>::empty());
    }
}

/// The contents of a list of lines.
pub open spec fn line_views(lines: Seq<Vec<u8>>) -> Seq<Seq<u8>> {
    Seq::new(lines.len(), |i: int| lines[i]@)
}

/// The bytes received since the last newline.
#[derive(Debug)]
pub struct LineBuffer {
    pending: Vec<u8>,
}

impl View for LineBuffer {
    type V = Seq<u8>;

    closed spec fn view(&self) -> Seq<u8> {
        self.pending@
    }
}

impl LineBuffer {
    /// The buffer holds part of one line.
    pub closed spec fn wf(&self) -> bool {
        is_piece(self.pending@)
    }

    /// An empty buffer.
    pub fn new() -> (b: LineBuffer)
        ensures
            b.wf(),
            b@ == Seq::<u8>::empty(),
    {
        LineBuffer { pending: Vec::new() }
    }

    /// The number of bytes held.
    pub fn len(&self) -> (n: usize)
        ensures
            n == self@.len(),
    {
        self.pending.len()
    }

    /// Takes in more of the stream and hands out the lines it completes.
    ///
    /// A line longer than [`MAX_LINE`] is refused, complete or not; the
    /// buffer is then empty and the connection is to be closed.
    pub fn feed(&mut self, bytes: &[u8]) -> (r: Result<Vec<Vec<u8>>, ProtocolError>)
        requires
            old(self).wf(),
        ensures
            final(self).wf(),
            match frames(old(self)@ + bytes@) {
                Some((lines, rest)) => r is Ok && line_views(r.unwrap()@) == lines && final(self)@
                    == rest,
                None => r == Err::<Vec<Vec<u8>>, ProtocolError>(ProtocolError::OversizedFrame)
                    && final(self)@ == Seq::<u8>::empty(),
            },
    {
        let ghost start = self.pending@;
        let ghost stream = start + bytes@;
        let mut lines: Vec<Vec<u8>> = Vec::new();
        let mut i: usize = 0;
        proof {
            lemma_frames_piece(start);
            assert(stream.take(start.len() as int) =~= start);
            assert(line_views(lines@) =~= Seq::<Seq<u8>>::empty());
        }
        while i < bytes.len()
            invariant
                i <= bytes@.len(),
                start == old(self)@,
                stream == start + bytes@,
                is_piece(self.pending@),
                frames(stream.take(start.len() + i)) == Some((line_views(lines@), self.pending@)),
            decreases bytes@.len() - i,
        {
            let b = bytes[i];
            proof {
                assert(stream.take(start.len() + i + 1).drop_last() =~= stream.take(
                    start.len() + i,
                ));
                assert(stream.take(start.len() + i + 1).last() == b);
            }
            if b == SPLIT {
                let mut line: Vec<u8> = Vec::new();
                std::mem::swap(&mut line, &mut self.pending);
                let ghost before = line_views(lines@);
                lines.push(line);
                proof {
                    assert(line_views(lines@) =~= before.push(line@));
                }
            } else if self.pending.len() >= MAX_LINE {
                proof {
                    assert(frames(stream.take(start.len() + i + 1)) is None);
                    lemma_frames_refused(stream, start.len() + i + 1);
                }
                self.pending = Vec::new();
                return Err(ProtocolError::OversizedFrame);
            } else {
                self.pending.push(b);
            }
            i = i + 1;
        }
        proof {
            assert(stream.take(start.len() + i) =~= stream);
        }
        Ok(lines)
    }
}

} // verus!
