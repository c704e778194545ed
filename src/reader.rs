use vstd::prelude::*;

use crate::input::Input;

verus! {

/// The error of a read that asked for more bytes than were left.
#[derive(Clone, Copy, Debug, PartialEq, Eq, Structural)]
pub struct EndOfInput;

/// A forward-only cursor over the bytes of an [`Input`] not yet read.
///
/// Every successful read drops bytes from the front of what is left; a failed
/// read leaves the reader as it was. So what is left is always a suffix of the
/// input that the reader started from, and no byte is handed out twice.
#[derive(Debug)]
pub struct Reader<'a> {
    input: Input<'a>,
}

impl<'a> View for Reader<'a> {
    type V = Seq<u8>;

    /// The bytes not yet read.
    closed spec fn view(&self) -> Seq<u8> {
        self.input@
    }
}

/// Whether `s` is what remains of `t` once some bytes are taken off its front.
pub open spec fn is_suffix_of(s: Seq<u8>, t: Seq<u8>) -> bool {
    &&& s.len() <= t.len()
    &&& s == t.subrange(t.len() - s.len(), t.len() as int)
}

/// What `read_byte` returns when `s` is left.
pub open spec fn byte_read_outcome(s: Seq<u8>) -> Result<u8, EndOfInput> {
    if s.len() > 0 {
        Ok(s[0])
    } else {
        Err(EndOfInput)
    }
}

/// What is left after `read_byte` when `s` was left.
pub open spec fn rest_after_byte_read(s: Seq<u8>) -> Seq<u8> {
    if s.len() > 0 {
        s.drop_first()
    } else {
        s
    }
}

/// What is left of `s` after `k` calls of `read_byte`, failed ones included.
pub open spec fn bytes_after_byte_reads(s: Seq<u8>, k: nat) -> Seq<u8>
    decreases k,
{
    if k == 0 {
        s
    } else {
        rest_after_byte_read(bytes_after_byte_reads(s, (k - 1) as nat))
    }
}

proof fn lemma_bytes_after_byte_reads(s: Seq<u8>, k: nat)
    requires
        k <= s.len(),
    ensures
        bytes_after_byte_reads(s, k) == s.subrange(k as int, s.len() as int),
    decreases k,
{
    if k == 0 {
        assert(s.subrange(0, s.len() as int) =~= s);
    } else {
        lemma_bytes_after_byte_reads(s, (k - 1) as nat);
        assert(s.subrange(k - 1, s.len() as int).drop_first() =~= s.subrange(
            k as int,
            s.len() as int,
        ));
    }
}

/// Reading a buffer one byte at a time: the first `s.len()` calls of
/// `read_byte` succeed and hand out the bytes of `s` in order, and the call
/// after them fails with `EndOfInput`, with nothing left to read.
pub proof fn lemma_byte_reads_walk_the_input(s: Seq<u8>)
    ensures
        forall|k: nat|
            k < s.len() ==> #[trigger] byte_read_outcome(bytes_after_byte_reads(s, k)) == Ok::<
                u8,
                EndOfInput,
            >(s[k as int]),
        byte_read_outcome(bytes_after_byte_reads(s, s.len())) == Err::<u8, EndOfInput>(
            EndOfInput,
        ),
        bytes_after_byte_reads(s, s.len()).len() == 0,
{
    assert forall|k: nat| k < s.len() implies #[trigger] byte_read_outcome(
        bytes_after_byte_reads(s, k),
    ) == Ok::<u8, EndOfInput>(s[k as int]) by {
        lemma_bytes_after_byte_reads(s, k);
    }
    lemma_bytes_after_byte_reads(s, s.len());
}

impl<'a> Reader<'a> {
    /// A reader at the start of `input`. Prefer `Input::read_all` or
    /// `read_all_optional`, which also check that the whole input was read.
    pub fn new(input: Input<'a>) -> (r: Self)
        ensures
            r@ == input@,
    {
        Reader { input }
    }

    /// Whether no bytes are left.
    pub fn at_end(&self) -> (r: bool)
        ensures
            r == (self@.len() == 0),
    {
        self.input.is_empty()
    }

    /// Whether a byte is left and the next one is `b`. Reads nothing.
    pub fn peek(&self, b: u8) -> (r: bool)
        ensures
            r == (self@.len() > 0 && self@[0] == b),
    {
        match self.input.first() {
            Some(next) => *next == b,
            None => false,
        }
    }

    /// Reads the next byte, or fails with `EndOfInput` when none is left.
    pub fn read_byte(&mut self) -> (r: Result<u8, EndOfInput>)
        ensures
            r == byte_read_outcome(old(self)@),
            final(self)@ == rest_after_byte_read(old(self)@),
    {
        match self.input.split_first() {
            Some((head, tail)) => {
                self.input = tail;
                Ok(head)
            },
            None => Err(EndOfInput),
        }
    }

    /// Reads the next `num_bytes` bytes, or fails with `EndOfInput`, reading
    /// nothing, when fewer are left.
    pub fn read_bytes(&mut self, num_bytes: usize) -> (r: Result<Input<'a>, EndOfInput>)
        ensures
            num_bytes <= old(self)@.len() ==> (r matches Ok(read) && read@ == old(self)@.subrange(
                0,
                num_bytes as int,
            ) && final(self)@ == old(self)@.subrange(num_bytes as int, old(self)@.len() as int)),
            num_bytes > old(self)@.len() ==> (r is Err && final(self)@ == old(self)@),
    {
        match self.input.split_at(num_bytes) {
            Some((before, after)) => {
                self.input = after;
                Ok(before)
            },
            None => Err(EndOfInput),
        }
    }

    /// Reads all the bytes that are left; an empty input when none are.
    pub fn read_bytes_to_end(&mut self) -> (r: Input<'a>)
        ensures
            r@ == old(self)@,
            final(self)@.len() == 0,
    {
        let rest = self.input;
        self.input = Input::empty();
        rest
    }

    /// Runs `read` on this reader and, when it succeeds, returns with its
    /// result the input of exactly the bytes that it read.
    ///
    /// `read` may only take bytes off the front of what is left, as every
    /// method of `Reader` does.
    pub fn read_partial<F, R, E>(&mut self, read: F) -> (res: Result<(Input<'a>, R), E>) where
        F: FnOnce(&mut Reader<'a>) -> Result<R, E>,
        requires
            forall|r: &mut Reader<'a>| r@ == old(self)@ ==> read.requires((r,)),
            forall|r: &mut Reader<'a>, out: Result<R, E>|
                r@ == old(self)@ && read.ensures((r,), out) && out is Ok ==> is_suffix_of(
                    final(r)@,
                    r@,
                ),
        ensures
            exists|r: &mut Reader<'a>, out: Result<R, E>|
                {
                    &&& r@ == old(self)@
                    &&& final(r)@ == final(self)@
                    &&& read.ensures((r,), out)
                    &&& match out {
                        Ok(v) => (res matches Ok((consumed, w)) && w == v && consumed@
                            == old(self)@.subrange(
                            0,
                            old(self)@.len() - final(self)@.len(),
                        )),
                        Err(e) => res == Err::<(Input<'a>, R), E>(e),
                    }
                },
    {
        let original = self.input;
        let out = read(self);
        match out {
            Ok(v) => {
                let amount_read = original.len() - self.input.len();
                Ok((original.prefix(amount_read), v))
            },
            Err(e) => Err(e),
        }
    }

    /// Skips the next `num_bytes` bytes, or fails with `EndOfInput`, skipping
    /// nothing, when fewer are left.
    pub fn skip(&mut self, num_bytes: usize) -> (r: Result<(), EndOfInput>)
        ensures
            num_bytes <= old(self)@.len() ==> (r is Ok && final(self)@ == old(self)@.subrange(
                num_bytes as int,
                old(self)@.len() as int,
            )),
            num_bytes > old(self)@.len() ==> (r is Err && final(self)@ == old(self)@),
    {
        match self.read_bytes(num_bytes) {
            Ok(_) => Ok(()),
            Err(e) => Err(e),
        }
    }

    /// Skips all the bytes that are left: the explicit way to ignore trailing
    /// bytes.
    pub fn skip_to_end(&mut self)
        ensures
            final(self)@.len() == 0,
    {
        let _ = self.read_bytes_to_end();
    }
}

} // verus!
