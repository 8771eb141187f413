use bytes::BytesMut;
use vstd::prelude::*;
use vstd::slice::{slice_subrange, slice_to_vec};

use crate::codec::{buf_contents, put_slice, split_front};

verus! {

/// The byte that ends each frame of the text format: `\n`.
pub const DELIMITER: u8 = 10;

/// Whether `i` is the position of the first delimiter in `s`.
pub open spec fn is_first_delimiter(s: Seq<u8>, i: int) -> bool {
    &&& 0 <= i < s.len()
    &&& s[i] == DELIMITER
    &&& forall|j: int| 0 <= j < i ==> s[j] != DELIMITER
}

/// One decoding attempt of the text format: the payload before the first
/// delimiter and the bytes after it, or nothing when no delimiter is
/// buffered yet.
pub open spec fn line_step(s: Seq<u8>) -> (Option<Seq<u8>>, Seq<u8>) {
    if exists|i: int| is_first_delimiter(s, i) {
        let i = choose|i: int| is_first_delimiter(s, i);
        (Some(s.take(i)), s.skip(i + 1))
    } else {
        (None, s)
    }
}

/// Why a payload cannot be written in the text format.
#[derive(Debug, Clone, Copy, PartialEq, Eq, Structural)]
pub enum LineError {
    /// The payload holds the delimiter, and the format has no escaping.
    ContainsDelimiter,
}

/// Relies on BytesMut's Deref to a byte slice: the slice holds the
/// buffered bytes.
#[verifier::external_body]
fn buf_as_slice(b: &BytesMut) -> (r: &[u8])
    ensures
        r@ == buf_contents(*b),
{
    &b[..]
}

/// The position of the first delimiter in `s`, if there is one.
fn find_delimiter(s: &[u8]) -> (r: Option<usize>)
    ensures
        match r {
            Some(i) => is_first_delimiter(s@, i as int),
            None => forall|j: int| 0 <= j < s@.len() ==> s@[j] != DELIMITER,
        },
{
    let mut i: usize = 0;
    while i < s.len()
        invariant
            i <= s@.len(),
            forall|j: int| 0 <= j < i ==> s@[j] != DELIMITER,
        decreases s@.len() - i,
    {
        if s[i] == DELIMITER {
            return Some(i);
        }
        i = i + 1;
    }
    None
}

/// The delimiter-terminated text format: each frame is its payload followed
/// by one `\n`.
#[derive(Debug)]
pub struct LineCodec;

impl LineCodec {
    /// Takes one line off the front of `buf` if its delimiter is buffered,
    /// and returns it without the delimiter; otherwise leaves `buf` as it is.
    pub fn decode(&mut self, buf: &mut BytesMut) -> (r: Option<Vec<u8>>)
        ensures
            (match r {
                Some(v) => Some(v@),
                None => None,
            }, buf_contents(*final(buf))) == line_step(buf_contents(*old(buf))),
    {
        let bytes = buf_as_slice(buf);
        match find_delimiter(bytes) {
            Some(i) => {
                let len = bytes.len();
                let line = slice_to_vec(slice_subrange(bytes, 0, i));
                assert(i < len);
                let _line_and_delimiter = split_front(buf, i + 1);
                proof {
                    let s = buf_contents(*old(buf));
                    let k = choose|k: int| is_first_delimiter(s, k);
                    assert(is_first_delimiter(s, k));
                    assert(k == i) by {
                        if k < i {
                            assert(s[k] != DELIMITER);
                        } else if k > i {
                            assert(s[i as int] != DELIMITER);
                        }
                    }
                    assert(line@ =~= s.take(i as int));
                }
                Some(line)
            },
            None => None,
        }
    }

    /// Appends `line` and the delimiter to `buf`; a payload that holds the
    /// delimiter is refused and `buf` is left as it is.
    pub fn encode(&mut self, line: &[u8], buf: &mut BytesMut) -> (r: Result<(), LineError>)
        requires
            buf_contents(*old(buf)).len() + line@.len() + 1 <= isize::MAX,
        ensures
            r is Ok <==> !line@.contains(DELIMITER),
            r is Ok ==> buf_contents(*final(buf)) == buf_contents(*old(buf)) + line@ + seq![
                DELIMITER,
            ],
            r is Err ==> buf_contents(*final(buf)) == buf_contents(*old(buf)),
    {
        match find_delimiter(line) {
            Some(i) => {
                assert(line@[i as int] == DELIMITER);
                Err(LineError::ContainsDelimiter)
            },
            None => {
                put_slice(buf, line);
                let end = [DELIMITER];
                put_slice(buf, &end);
                assert(end@ =~= seq![DELIMITER]);
                Ok(())
            },
        }
    }
}

/// A line without the delimiter, written as a frame with any bytes after
/// it, decodes to that line and leaves exactly the bytes after it.
pub proof fn lemma_line_round_trip(line: Seq<u8>, rest: Seq<u8>)
    requires
        !line.contains(DELIMITER),
    ensures
        line_step(line + seq![DELIMITER] + rest) == (Some(line), rest),
{
    let s = line + seq![DELIMITER] + rest;
    let n = line.len() as int;
    assert(s[n] == DELIMITER);
    assert forall|j: int| 0 <= j < n implies s[j] != DELIMITER by {
        assert(s[j] == line[j]);
    }
    assert(is_first_delimiter(s, n));
    let k = choose|k: int| is_first_delimiter(s, k);
    assert(k == n) by {
        if k < n {
            assert(s[k] == line[k]);
        }
    }
    assert(s.take(n) =~= line);
    assert(s.skip(n + 1) =~= rest);
}

} // verus!
