use vstd::prelude::*;

use crate::input::Input;
use crate::reader::Reader;

verus! {

/// What a whole-input read returns when the parsing function returned `out`
/// and left `rest` unread: its error as it is; its value only when nothing is
/// left, and otherwise `incomplete_read` in place of the value.
pub open spec fn whole_read_outcome<R, E>(
    out: Result<R, E>,
    rest: Seq<u8>,
    incomplete_read: E,
) -> Result<R, E> {
    match out {
        Ok(v) => if rest.len() == 0 {
            Ok(v)
        } else {
            Err(incomplete_read)
        },
        Err(e) => Err(e),
    }
}

/// A whole-input read succeeds exactly when the parsing function succeeded
/// and left nothing unread, and then with that function's value. A success
/// that left bytes unread gives `incomplete_read`, whatever its value; a
/// failure of the parsing function comes back unchanged.
pub proof fn lemma_whole_read_needs_every_byte<R, E>(
    out: Result<R, E>,
    rest: Seq<u8>,
    incomplete_read: E,
)
    ensures
        whole_read_outcome(out, rest, incomplete_read) is Ok <==> (out is Ok && rest.len() == 0),
        out is Ok && rest.len() == 0 ==> whole_read_outcome(out, rest, incomplete_read) == out,
        out is Ok && rest.len() > 0 ==> whole_read_outcome(out, rest, incomplete_read) == Err::<
            R,
            E,
        >(incomplete_read),
        out is Err ==> whole_read_outcome(out, rest, incomplete_read) == out,
{
}

impl<'a> Input<'a> {
    /// Runs `read` on a reader over this input and checks that it read every
    /// byte.
    ///
    /// An error of `read` comes back as it is. A success of `read` that left
    /// bytes unread becomes `incomplete_read`, and its value is dropped.
    pub fn read_all<F, R, E>(&self, incomplete_read: E, read: F) -> (res: Result<R, E>) where
        F: FnOnce(&mut Reader<'a>) -> Result<R, E>,
        requires
            forall|r: &mut Reader<'a>| r@ == self@ ==> read.requires((r,)),
        ensures
            exists|r: &mut Reader<'a>, out: Result<R, E>|
                {
                    &&& r@ == self@
                    &&& read.ensures((r,), out)
                    &&& res == whole_read_outcome(out, final(r)@, incomplete_read)
                },
    {
        let mut reader = Reader::new(*self);
        let out = read(&mut reader);
        let ghost returned = out;
        match out {
            Ok(v) => if reader.at_end() {
                assert(whole_read_outcome(returned, reader@, incomplete_read) == Ok::<R, E>(v));
                Ok(v)
            } else {
                Err(incomplete_read)
            },
            Err(e) => Err(e),
        }
    }
}

/// Like `Input::read_all` when `input` is there; when it is not, `read` is
/// called with no reader and its result is returned as it is.
pub fn read_all_optional<'a, F, R, E>(
    input: Option<Input<'a>>,
    incomplete_read: E,
    read: F,
) -> (res: Result<R, E>) where
    F: FnOnce(Option<&mut Reader<'a>>) -> Result<R, E>,
    requires
        input matches Some(i) ==> forall|r: &mut Reader<'a>|
            r@ == i@ ==> read.requires((Some(r),)),
        input is None ==> read.requires((None::<&mut Reader<'a>>,)),
    ensures
        input matches Some(i) ==> exists|r: &mut Reader<'a>, out: Result<R, E>|
            {
                &&& r@ == i@
                &&& read.ensures((Some(r),), out)
                &&& res == whole_read_outcome(out, final(r)@, incomplete_read)
            },
        input is None ==> read.ensures((None::<&mut Reader<'a>>,), res),
{
    match input {
        Some(input) => {
            let mut reader = Reader::new(input);
            let out = read(Some(&mut reader));
            let ghost returned = out;
            match out {
                Ok(v) => if reader.at_end() {
                    assert(whole_read_outcome(returned, reader@, incomplete_read) == Ok::<R, E>(v));
                    Ok(v)
                } else {
                    Err(incomplete_read)
                },
                Err(e) => Err(e),
            }
        },
        None => read(None),
    }
}

} // verus!
