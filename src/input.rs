use vstd::prelude::*;

verus! {

/// A read-only view of a borrowed byte buffer.
///
/// Copying an `Input` copies the reference, never the bytes. No method of
/// `Input` panics. Two inputs are equal when they hold the same bytes, wherever
/// those bytes came from.
#[derive(Clone, Copy, Debug, Eq)]
pub struct Input<'a> {
    bytes: &'a [u8],
}

impl<'a> View for Input<'a> {
    type V = Seq<u8>;

    closed spec fn view(&self) -> Seq<u8> {
        self.bytes@
    }
}

impl Input<'static> {
    /// The input that holds no bytes.
    pub(crate) fn empty() -> (r: Self)
        ensures
            r@ == Seq::<u8>::empty(),
    {
        Input { bytes: &[] }
    }
}

impl<'a> Input<'a> {
    /// Wraps `bytes`, which must be shorter than `usize::MAX` so that positions
    /// within it can always be advanced by one without overflow.
    pub fn from(bytes: &'a [u8]) -> (r: Self)
        requires
            bytes@.len() < usize::MAX,
        ensures
            r@ == bytes@,
    {
        Input { bytes }
    }

    /// The first byte, or `None` when the input is empty.
    pub fn first(&self) -> (r: Option<&u8>)
        ensures
            self@.len() == 0 ==> r is None,
            self@.len() > 0 ==> (r matches Some(b) && *b == self@[0]),
    {
        if self.bytes.len() == 0 {
            None
        } else {
            Some(&self.bytes[0])
        }
    }

    /// Whether the input holds no bytes.
    pub fn is_empty(&self) -> (r: bool)
        ensures
            r == (self@.len() == 0),
    {
        self.bytes.len() == 0
    }

    /// The number of bytes in the input.
    pub fn len(&self) -> (r: usize)
        ensures
            r == self@.len(),
    {
        self.bytes.len()
    }

    /// The first byte and an input over the bytes after it, or `None` when the
    /// input is empty.
    pub fn split_first(&self) -> (r: Option<(u8, Self)>)
        ensures
            self@.len() == 0 ==> r is None,
            self@.len() > 0 ==> (r matches Some((b, rest)) && b == self@[0] && rest@
                == self@.drop_first()),
    {
        if self.bytes.len() == 0 {
            return None;
        }
        let (head, tail) = self.bytes.split_at(1);
        Some((head[0], Input { bytes: tail }))
    }

    /// The bytes before position `i` and those from `i` on, or `None` when `i`
    /// is past the end. An index out of range is refused, never clamped.
    pub fn split_at(&self, i: usize) -> (r: Option<(Self, Self)>)
        ensures
            i > self@.len() ==> r is None,
            i <= self@.len() ==> (r matches Some((before, after)) && before@ == self@.subrange(
                0,
                i as int,
            ) && after@ == self@.subrange(i as int, self@.len() as int)),
    {
        if self.bytes.len() < i {
            return None;
        }
        let (before, after) = self.bytes.split_at(i);
        Some((Input { bytes: before }, Input { bytes: after }))
    }

    /// The first `n` bytes, for a caller that has already checked that there
    /// are that many.
    pub(crate) fn prefix(&self, n: usize) -> (r: Self)
        requires
            n <= self@.len(),
        ensures
            r@ == self@.subrange(0, n as int),
    {
        let (before, _) = self.bytes.split_at(n);
        Input { bytes: before }
    }

    /// The underlying bytes as a plain slice.
    ///
    /// This is the one way out of the `Input`/`Reader` discipline: code that
    /// indexes or parses the returned slice by itself gives up the guarantees
    /// that reads through `Reader` have (no panic, no byte read twice).
    pub fn as_slice_less_safe(&self) -> (r: &'a [u8])
        ensures
            r@ == self@,
    {
        self.bytes
    }
}

/// Whether two byte slices hold the same bytes.
fn same_bytes(a: &[u8], b: &[u8]) -> (r: bool)
    ensures
        r == (a@ == b@),
{
    if a.len() != b.len() {
        return false;
    }
    let mut i: usize = 0;
    while i < a.len()
        invariant
            a@.len() == b@.len(),
            i <= a@.len(),
            forall|j: int| 0 <= j < i ==> a@[j] == b@[j],
        decreases a@.len() - i,
    {
        if a[i] != b[i] {
            return false;
        }
        i = i + 1;
    }
    assert(a@ =~= b@);
    true
}

impl<'a, 'b> PartialEq<Input<'b>> for Input<'a> {
    fn eq(&self, other: &Input<'b>) -> (r: bool) {
        same_bytes(self.bytes, other.bytes)
    }
}

impl<'a, 'b> vstd::std_specs::cmp::PartialEqSpecImpl<Input<'b>> for Input<'a> {
    open spec fn obeys_eq_spec() -> bool {
        true
    }

    open spec fn eq_spec(&self, other: &Input<'b>) -> bool {
        self@ == other@
    }
}

impl<'a, 'b> PartialEq<&'b [u8]> for Input<'a> {
    fn eq(&self, other: &&'b [u8]) -> (r: bool) {
        same_bytes(self.bytes, *other)
    }
}

impl<'a, 'b> vstd::std_specs::cmp::PartialEqSpecImpl<&'b [u8]> for Input<'a> {
    open spec fn obeys_eq_spec() -> bool {
        true
    }

    open spec fn eq_spec(&self, other: &&'b [u8]) -> bool {
        self@ == other@
    }
}

} // verus!
