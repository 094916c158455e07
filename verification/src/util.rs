//! Small traits shared by the message types.
use vstd::prelude::*;

use crate::text::{split_whitespace, ws_tokens};

verus! {

/// Marks the types of this crate that may carry the crate's extension
/// traits.
pub trait Sealed {
}

/// The size of a message once it is encoded, the same for every value of
/// the type.
pub trait EncodedSize {
    fn encoded_size_of() -> usize;
}

/// The white-space separated words of a line, read one after another.
pub struct Tokens {
    words: Vec<String>,
    next: usize,
}

impl View for Tokens {
    type V = Seq<Seq<char>>;

    /// The words not read yet.
    closed spec fn view(&self) -> Seq<Seq<char>> {
        self.words@.map_values(|w: String| w@).subrange(self.next as int, self.words@.len() as int)
    }
}

impl Tokens {
    #[verifier::type_invariant]
    spec fn inv(&self) -> bool {
        self.next <= self.words@.len()
    }

    /// The words of `s`.
    pub fn new(s: &str) -> (r: Tokens)
        ensures
            r@ == ws_tokens(s@),
    {
        let words = split_whitespace(s);
        let r = Tokens { words, next: 0 };
        assert(r@ =~= ws_tokens(s@));
        r
    }
}

/// The next word, trimmed of white space (a word has none around it). There
/// must be one.
pub fn parse_token(tokens: &mut Tokens) -> (r: String)
    requires
        old(tokens)@.len() > 0,
    ensures
        r@ == old(tokens)@[0],
        final(tokens)@ == old(tokens)@.drop_first(),
{
    proof {
        use_type_invariant(&*tokens);
    }
    let i = tokens.next;
    let _n = tokens.words.len();
    let w = tokens.words[i].clone();
    tokens.next = i + 1;
    assert(tokens@ =~= old(tokens)@.drop_first());
    w
}

/// The next word, if there is one left; the words are then read past it.
pub fn next_token(tokens: &mut Tokens) -> (r: Option<String>)
    ensures
        old(tokens)@.len() == 0 ==> r is None && final(tokens)@ == old(tokens)@,
        old(tokens)@.len() > 0 ==> (r matches Some(w) && w@ == old(tokens)@[0]
            && final(tokens)@ == old(tokens)@.drop_first()),
{
    proof {
        use_type_invariant(&*tokens);
    }
    if tokens.next < tokens.words.len() {
        Some(parse_token(tokens))
    } else {
        None
    }
}

} // verus!
