//! The public identifier of a clip: a ten-character code drawn from a
//! small fixed alphabet.

use vstd::prelude::*;

verus! {

/// The characters a freshly generated shortcode is drawn from.
pub open spec fn is_shortcode_char(c: char) -> bool {
    c == 'a' || c == 'b' || c == 'c' || c == 'd' || c == '1' || c == '2' || c == '3' || c == '4'
}

/// The number of characters in a freshly generated shortcode.
pub open spec fn shortcode_len() -> int {
    10
}

/// Relies on `rand::random_range`: returns a uniformly drawn value inside
/// the given range; it panics only on an empty range, which the
/// precondition rules out.
#[verifier::external_body]
fn pick_index(len: usize) -> (r: usize)
    requires
        len >= 1,
    ensures
        r < len,
{
    rand::random_range(0..len)
}

/// Relies on `String`'s `FromIterator<char>`: collects exactly the given
/// characters, in order.
#[verifier::external_body]
fn string_from_chars(cs: Vec<char>) -> (r: String)
    ensures
        r@ == cs@,
{
    cs.into_iter().collect()
}

/// The public identifier used to retrieve a clip. Only its equality
/// matters to the rest of the library.
#[derive(Debug)]
pub struct ShortCode(String);

impl View for ShortCode {
    type V = Seq<char>;

    closed spec fn view(&self) -> Seq<char> {
        self.0@
    }
}

impl ShortCode {
    /// Draws a fresh ten-character code from the fixed alphabet.
    pub fn new() -> (r: Self)
        ensures
            r@.len() == shortcode_len(),
            forall|i: int| 0 <= i < r@.len() ==> is_shortcode_char(#[trigger] r@[i]),
    {
        let mut cs: Vec<char> = Vec::new();
        let mut i: usize = 0;
        while i < 10
            invariant
                0 <= i <= 10,
                cs@.len() == i,
                forall|j: int| 0 <= j < cs@.len() ==> is_shortcode_char(#[trigger] cs@[j]),
            decreases 10 - i,
        {
            let k = pick_index(8);
            let c: char = if k == 0 {
                'a'
            } else if k == 1 {
                'b'
            } else if k == 2 {
                'c'
            } else if k == 3 {
                'd'
            } else if k == 4 {
                '1'
            } else if k == 5 {
                '2'
            } else if k == 6 {
                '3'
            } else {
                '4'
            };
            cs.push(c);
            i += 1;
        }
        ShortCode(string_from_chars(cs))
    }

    /// Wraps already-split path characters as a shortcode.
    pub(crate) fn from_chars(cs: Vec<char>) -> (r: Self)
        ensures
            r@ == cs@,
    {
        ShortCode(string_from_chars(cs))
    }

    pub fn as_str(&self) -> (r: &str)
        ensures
            r@ == self@,
    {
        self.0.as_str()
    }

    pub fn into_inner(self) -> (r: String)
        ensures
            r@ == self@,
    {
        self.0
    }

    /// Wraps raw text as a shortcode, exactly as given.
    pub fn from_raw(raw: &str) -> (r: Self)
        ensures
            r@ == raw@,
    {
        ShortCode(raw.to_owned())
    }
}

impl Default for ShortCode {
    /// A fresh random code, like `ShortCode::new`.
    fn default() -> (r: Self)
        ensures
            r@.len() == shortcode_len(),
    {
        ShortCode::new()
    }
}

impl Clone for ShortCode {
    fn clone(&self) -> (r: Self)
        ensures
            r == *self,
    {
        ShortCode(self.0.clone())
    }
}

impl PartialEq for ShortCode {
    fn eq(&self, other: &ShortCode) -> (r: bool) {
        self.0 == other.0
    }
}

impl vstd::std_specs::cmp::PartialEqSpecImpl for ShortCode {
    open spec fn obeys_eq_spec() -> bool {
        true
    }

    open spec fn eq_spec(&self, other: &ShortCode) -> bool {
        self@ == other@
    }
}

} // verus!
