//! Splitting a device's raw configuration-descriptor buffer into its
//! descriptors: each block starts with its own length byte, and a zero
//! length byte (or the buffer's end) ends the walk.

use vstd::prelude::*;

use vstd::slice::slice_index_get;

verus! {

/// Why the raw buffer cannot be split.
#[derive(Debug, Clone, Copy, PartialEq, Eq, Structural)]
pub enum DescriptorError {
    /// A descriptor's length byte runs past the end of the buffer.
    Truncated,
}

/// The descriptor blocks encoded in `b` from position `pos`: each block
/// is as long as its first byte says, a zero length byte or the end of
/// the buffer stops the walk, and a block running past the end is
/// malformed.
pub open spec fn desc_chunks(b: Seq<u8>, pos: int) -> Option<Seq<Seq<u8>>>
    recommends
        0 <= pos,
    decreases b.len() - pos,
{
    if pos >= b.len() || b[pos] == 0 {
        Some(Seq::empty())
    } else if pos + b[pos] > b.len() {
        None
    } else {
        match desc_chunks(b, pos + b[pos]) {
            None => None,
            Some(rest) => Some(seq![b.subrange(pos, pos + b[pos])] + rest),
        }
    }
}

/// Walks a raw configuration-descriptor buffer and hands out one
/// descriptor at a time.
pub struct RawDescriptorParser {
    raw: Vec<u8>,
    current: usize,
}

impl RawDescriptorParser {
    /// The unconsumed part of the buffer starts at this position.
    pub closed spec fn pos(&self) -> int {
        self.current as int
    }

    /// The whole raw buffer.
    pub closed spec fn bytes(&self) -> Seq<u8> {
        self.raw@
    }

    /// A parser over the whole raw buffer.
    pub fn new(raw: Vec<u8>) -> (r: RawDescriptorParser)
        ensures
            r.bytes() == raw@,
            r.pos() == 0,
    {
        RawDescriptorParser { raw, current: 0 }
    }

    /// Cut the descriptor block under the current position out of the
    /// buffer: as many bytes as its length byte says, advancing past
    /// them.
    pub fn cut_raw_descriptor(&mut self) -> (r: Result<Vec<u8>, DescriptorError>)
        requires
            0 <= old(self).pos() < old(self).bytes().len(),
            old(self).bytes()[old(self).pos()] > 0,
        ensures
            final(self).bytes() == old(self).bytes(),
            ({
                let len = old(self).bytes()[old(self).pos()] as int;
                match r {
                    Ok(d) => {
                        &&& old(self).pos() + len <= old(self).bytes().len()
                        &&& d@ == old(self).bytes().subrange(
                            old(self).pos(),
                            old(self).pos() + len,
                        )
                        &&& final(self).pos() == old(self).pos() + len
                    },
                    Err(DescriptorError::Truncated) => {
                        &&& old(self).pos() + len > old(self).bytes().len()
                        &&& final(self).pos() == old(self).pos()
                    },
                }
            }),
    {
        let len = *slice_index_get(self.raw.as_slice(), self.current) as usize;
        if self.raw.len() - self.current < len {
            return Err(DescriptorError::Truncated);
        }
        let mut d: Vec<u8> = Vec::new();
        let mut j: usize = 0;
        while j < len
            invariant
                self == old(self),
                self.raw@.len() <= usize::MAX,
                self.current + len <= self.raw@.len(),
                j <= len,
                d@ == self.raw@.subrange(self.current as int, self.current + j),
            decreases len - j,
        {
            let c = *slice_index_get(self.raw.as_slice(), self.current + j);
            d.push(c);
            proof {
                assert(d@ =~= self.raw@.subrange(self.current as int, self.current + j + 1));
            }
            j = j + 1;
        }
        self.current = self.current + len;
        Ok(d)
    }

    /// Cut the first unconsumed descriptor block.
    pub fn parse_first_descriptor(&mut self) -> (r: Result<Vec<u8>, DescriptorError>)
        requires
            0 <= old(self).pos() < old(self).bytes().len(),
            old(self).bytes()[old(self).pos()] > 0,
        ensures
            final(self).bytes() == old(self).bytes(),
            ({
                let len = old(self).bytes()[old(self).pos()] as int;
                match r {
                    Ok(d) => {
                        &&& old(self).pos() + len <= old(self).bytes().len()
                        &&& d@ == old(self).bytes().subrange(
                            old(self).pos(),
                            old(self).pos() + len,
                        )
                        &&& final(self).pos() == old(self).pos() + len
                    },
                    Err(DescriptorError::Truncated) => {
                        &&& old(self).pos() + len > old(self).bytes().len()
                        &&& final(self).pos() == old(self).pos()
                    },
                }
            }),
    {
        self.cut_raw_descriptor()
    }

    /// Split the whole buffer into its descriptor blocks, stopping at a
    /// zero length byte or the buffer's end; a block that runs past the
    /// end is an error.
    pub fn parse(&mut self) -> (r: Result<Vec<Vec<u8>>, DescriptorError>)
        requires
            old(self).pos() == 0,
        ensures
            match r {
                Ok(v) => desc_chunks(old(self).bytes(), 0) == Some(v.deep_view()),
                Err(DescriptorError::Truncated) => desc_chunks(old(self).bytes(), 0) is None,
            },
    {
        let ghost b = self.raw@;
        let mut v: Vec<Vec<u8>> = Vec::new();
        proof {
            assert(v.deep_view() =~~= Seq::<Seq<u8>>::empty());
            match desc_chunks(b, 0) {
                None => {},
                Some(x) => {
                    assert(Seq::<Seq<u8>>::empty() + x =~~= x);
                },
            }
        }
        loop
            invariant
                old(self).bytes() == b,
                self.bytes() == b,
                0 <= self.pos() <= b.len(),
                desc_chunks(b, 0) == compose_chunks(v.deep_view(), desc_chunks(b, self.pos())),
            decreases b.len() - self.pos(),
        {
            if self.current >= self.raw.len() {
                proof {
                    assert(desc_chunks(b, self.pos()) == Some(Seq::<Seq<u8>>::empty()));
                    assert(v.deep_view() + Seq::<Seq<u8>>::empty() =~~= v.deep_view());
                }
                return Ok(v);
            }
            let len_byte = *slice_index_get(self.raw.as_slice(), self.current);
            if len_byte == 0 {
                proof {
                    assert(desc_chunks(b, self.pos()) == Some(Seq::<Seq<u8>>::empty()));
                    assert(v.deep_view() + Seq::<Seq<u8>>::empty() =~~= v.deep_view());
                }
                return Ok(v);
            }
            let ghost pos0 = self.pos();
            let d = match self.cut_raw_descriptor() {
                Ok(d) => d,
                Err(e) => {
                    proof {
                        assert(desc_chunks(b, pos0) is None);
                    }
                    return Err(e);
                },
            };
            let ghost prev = v.deep_view();
            v.push(d);
            proof {
                let chunk = b.subrange(pos0, pos0 + b[pos0]);
                assert(d@ == chunk);
                assert(v.deep_view() =~~= prev.push(chunk));
                match desc_chunks(b, self.pos()) {
                    None => {
                        assert(desc_chunks(b, pos0) is None);
                    },
                    Some(tail) => {
                        assert(desc_chunks(b, pos0) == Some(seq![chunk] + tail));
                        assert(prev + (seq![chunk] + tail) =~~= prev.push(chunk) + tail);
                    },
                }
            }
        }
    }
}

/// The concatenation of already-cut blocks with the remaining walk:
/// `None` stays `None`.
pub open spec fn compose_chunks(done: Seq<Seq<u8>>, rest: Option<Seq<Seq<u8>>>) -> Option<
    Seq<Seq<u8>>,
> {
    match rest {
        None => None,
        Some(tail) => Some(done + tail),
    }
}

} // verus!
