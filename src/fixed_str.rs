use vstd::prelude::*;

verus! {

/// A name that travels in a field of `N` bytes on the wire.
#[derive(Debug, PartialEq, Eq, Hash)]
pub struct FixedString<const N: usize> {
    pub text: String,
}

impl<const N: usize> View for FixedString<N> {
    type V = Seq<char>;

    open spec fn view(&self) -> Seq<char> {
        self.text@
    }
}

impl<const N: usize> FixedString<N> {
    pub fn new(s: String) -> (r: Self)
        ensures
            r@ == s@,
    {
        FixedString { text: s }
    }

    pub fn as_str(&self) -> (r: &str)
        ensures
            r@ == self@,
    {
        self.text.as_str()
    }

    pub fn into_string(self) -> (r: String)
        ensures
            r@ == self@,
    {
        self.text
    }
}

impl<const N: usize> Clone for FixedString<N> {
    fn clone(&self) -> (r: Self)
        ensures
            r@ == self@,
    {
        FixedString { text: self.text.clone() }
    }
}

} // verus!
