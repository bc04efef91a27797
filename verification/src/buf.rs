//! An owned byte buffer whose contents stay out of diagnostic output.

use vstd::prelude::*;
use vstd::string::StringExecFns;

verus! {

/// A wrapper around an owned byte buffer.
///
/// This type basically only exists so buffer contents aren't printed
/// in diagnostic output: [`Buf::describe`] names the type and never the
/// bytes themselves, and [`Buf::len`] exposes how many there are.
pub struct Buf(Vec<u8>);

impl View for Buf {
    type V = Seq<u8>;

    closed spec fn view(&self) -> Seq<u8> {
        self.0@
    }
}

impl Buf {
    /// The number of bytes held.
    pub fn len(&self) -> (n: usize)
        ensures
            n == self@.len(),
    {
        self.0.len()
    }

    /// Borrow the bytes themselves.
    pub fn as_slice(&self) -> (s: &[u8])
        ensures
            s@ == self@,
    {
        self.0.as_slice()
    }

    /// A diagnostic name for the buffer that shows no byte of its contents.
    pub fn describe(&self) -> (s: String)
        ensures
            s@ == "Buf"@,
    {
        let s: String = String::from_str("Buf");
        s
    }
}

impl From<Vec<u8>> for Buf {
    fn from(buf: Vec<u8>) -> (r: Self) {
        Buf(buf)
    }
}

impl vstd::std_specs::convert::FromSpecImpl<Vec<u8>> for Buf {
    open spec fn obeys_from_spec() -> bool {
        true
    }

    closed spec fn from_spec(buf: Vec<u8>) -> Self {
        Buf(buf)
    }
}

/// A `Buf` built from a byte vector views as exactly those bytes.
pub proof fn lemma_buf_from_view(v: Vec<u8>)
    ensures
        <Buf as vstd::std_specs::convert::FromSpec<Vec<u8>>>::from_spec(v)@ == v@,
{
}

impl PartialEq for Buf {
    fn eq(&self, other: &Buf) -> (r: bool) {
        let r = self.0 == other.0;
        proof {
            if r {
                assert(self.0@ =~= other.0@);
            } else {
                if self.0@ == other.0@ {
                    assert(forall|i: int|
                        0 <= i < self.0@.len() ==> self.0@[i] == other.0@[i]);
                    assert(false);
                }
            }
        }
        r
    }
}

impl vstd::std_specs::cmp::PartialEqSpecImpl for Buf {
    open spec fn obeys_eq_spec() -> bool {
        true
    }

    open spec fn eq_spec(&self, other: &Buf) -> bool {
        self@ == other@
    }
}

} // verus!
