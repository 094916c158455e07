//! A string that is borrowed for a while, owned, or borrowed for good.
use vstd::prelude::*;

use crate::text::push_str;

verus! {

/// Like a copy-on-write string, but it tells a string borrowed for a
/// while from one borrowed for the whole program.
#[derive(Debug)]
pub enum Beef<'a> {
    Borrowed(&'a str),
    Owned(String),
    Static(&'static str),
}

impl<'a> View for Beef<'a> {
    type V = Seq<char>;

    open spec fn view(&self) -> Seq<char> {
        match self {
            Beef::Borrowed(s) => s@,
            Beef::Owned(s) => s@,
            Beef::Static(s) => s@,
        }
    }
}

/// A copy of `s`.
fn copy_str(s: &str) -> (r: String)
    ensures
        r@ == s@,
{
    let mut out = String::new();
    push_str(&mut out, s);
    assert(Seq::<char>::empty() + s@ =~= s@);
    out
}

impl<'a> Beef<'a> {
    /// The string.
    pub fn as_str(&self) -> (r: &str)
        ensures
            r@ == self@,
    {
        match self {
            Beef::Borrowed(s) => s,
            Beef::Owned(s) => s.as_str(),
            Beef::Static(s) => s,
        }
    }

    /// The same string, kept for the whole program: a string borrowed for a
    /// while is copied, the others are kept as they are.
    pub fn into_static(self) -> (r: Beef<'static>)
        ensures
            r@ == self@,
            self is Static ==> r is Static,
            !(self is Static) ==> r is Owned,
    {
        match self {
            Beef::Borrowed(s) => Beef::Owned(copy_str(s)),
            Beef::Owned(s) => Beef::Owned(s),
            Beef::Static(s) => Beef::Static(s),
        }
    }

    /// Another handle on the same string: borrowed strings stay borrowed,
    /// an owned string is copied.
    pub fn duplicate(&self) -> (r: Beef<'a>)
        ensures
            r@ == self@,
            self is Borrowed ==> r is Borrowed,
            self is Owned ==> r is Owned,
            self is Static ==> r is Static,
    {
        match self {
            Beef::Borrowed(s) => Beef::Borrowed(s),
            Beef::Owned(s) => Beef::Owned(copy_str(s.as_str())),
            Beef::Static(s) => Beef::Static(s),
        }
    }
}

} // verus!
