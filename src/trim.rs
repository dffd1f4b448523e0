//! Trimming of ASCII whitespace from byte strings, as used on the space-padded
//! sale name when it serves as a storage key.
use vstd::prelude::*;
use vstd::slice::slice_subrange;

verus! {

/// ASCII whitespace: space, tab, line feed, form feed, carriage return.
pub open spec fn is_ascii_ws(b: u8) -> bool {
    b == 32u8 || b == 9u8 || b == 10u8 || b == 12u8 || b == 13u8
}

/// `s` without its leading ASCII whitespace.
pub open spec fn trim_start(s: Seq<u8>) -> Seq<u8>
    decreases s.len(),
{
    if s.len() > 0 && is_ascii_ws(s[0]) {
        trim_start(s.drop_first())
    } else {
        s
    }
}

/// `s` without its trailing ASCII whitespace.
pub open spec fn trim_end(s: Seq<u8>) -> Seq<u8>
    decreases s.len(),
{
    if s.len() > 0 && is_ascii_ws(s.last()) {
        trim_end(s.drop_last())
    } else {
        s
    }
}

/// `s` without its leading and trailing ASCII whitespace.
pub open spec fn trimmed(s: Seq<u8>) -> Seq<u8> {
    trim_end(trim_start(s))
}

fn is_ascii_whitespace(b: u8) -> (r: bool)
    ensures
        r == is_ascii_ws(b),
{
    b == 32u8 || b == 9u8 || b == 10u8 || b == 12u8 || b == 13u8
}

/// Trimming ASCII whitespace from both ends of a byte string.
pub trait TrimAsciiWhitespace {
    /// The bytes of `self`.
    spec fn bytes_of(&self) -> Seq<u8>;

    /// Trim ASCII whitespace from the start and end of the bytes.
    fn trim_ascii_whitespace(&self) -> (r: &[u8])
        ensures
            r@ == trimmed(self.bytes_of()),
    ;
}

impl<'a> TrimAsciiWhitespace for &'a [u8] {
    open spec fn bytes_of(&self) -> Seq<u8> {
        (*self)@
    }

    fn trim_ascii_whitespace(&self) -> (r: &[u8]) {
        let s: &'a [u8] = *self;
        let n = s.len();
        let mut from: usize = 0;
        assert(s@.subrange(0, n as int) =~= s@);
        while from < n && is_ascii_whitespace(s[from])
            invariant
                0 <= from <= n == s@.len(),
                trim_start(s@) == trim_start(s@.subrange(from as int, n as int)),
            decreases n - from,
        {
            assert(s@.subrange(from as int, n as int).drop_first() =~= s@.subrange(
                from as int + 1,
                n as int,
            ));
            from = from + 1;
        }
        if from == n {
            assert(s@.subrange(from as int, n as int) =~= Seq::<u8>::empty());
            return slice_subrange(s, 0, 0);
        }
        let mut to: usize = n;
        assert(s@.subrange(from as int, n as int)[0] == s@[from as int]);
        while to > from + 1 && is_ascii_whitespace(s[to - 1])
            invariant
                0 <= from < to <= n == s@.len(),
                trimmed(s@) == trim_end(s@.subrange(from as int, to as int)),
            decreases to,
        {
            assert(s@.subrange(from as int, to as int).drop_last() =~= s@.subrange(
                from as int,
                to as int - 1,
            ));
            to = to - 1;
        }
        assert(s@.subrange(from as int, to as int).last() == s@[to - 1]);
        slice_subrange(s, from, to)
    }
}

} // verus!
