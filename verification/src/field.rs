//! Validated field types for a clip: its content, timestamps, counters,
//! optional title and optional password.

use vstd::prelude::*;

verus! {

/// An instant in time, kept as whole seconds since the Unix epoch.
/// All the expiry logic needs from a timestamp is its ordering, so the
/// richer calendar structure stays outside the library.
#[derive(Clone, Copy, Debug, PartialEq, Eq, Structural)]
pub struct Time {
    seconds: u64,
}

impl Time {
    pub closed spec fn spec_seconds(&self) -> u64 {
        self.seconds
    }

    pub fn from_seconds(seconds: u64) -> (t: Time)
        ensures
            t.spec_seconds() == seconds,
    {
        Time { seconds }
    }

    pub fn seconds(&self) -> (s: u64)
        ensures
            s == self.spec_seconds(),
    {
        self.seconds
    }
}

/// Why a clip field was rejected.
#[derive(Clone, Copy, Debug, PartialEq, Eq, Structural)]
pub enum ClipError {
    EmptyContent,
}

/// What `char::is_whitespace` returns: a Unicode character property,
/// left uninterpreted here.
pub uninterp spec fn whitespace_char(c: char) -> bool;

/// Relies on `char::is_whitespace`: a pure property of the character,
/// the same on every call.
#[verifier::external_body]
fn is_whitespace(c: char) -> (r: bool)
    ensures
        r == whitespace_char(c),
{
    c.is_whitespace()
}

/// Relies on `str::chars`: yields exactly the characters of the string,
/// in order.
#[verifier::external_body]
pub(crate) fn chars_of(s: &str) -> (r: Vec<char>)
    ensures
        r@ == s@,
{
    s.chars().collect()
}

/// A string is visible when at least one of its characters is not
/// whitespace, i.e. trimming it would leave something behind.
pub open spec fn has_visible_char(s: Seq<char>) -> bool {
    exists|i: int| 0 <= i < s.len() && !whitespace_char(s[i])
}

/// The text of a clip; never blank.
#[derive(Debug)]
pub struct Content(String);

impl View for Content {
    type V = Seq<char>;

    closed spec fn view(&self) -> Seq<char> {
        self.0@
    }
}

impl Content {
    /// Accepts any text with at least one non-whitespace character and
    /// rejects the rest, exactly as trimming-then-checking-emptiness would.
    pub fn new(content: &str) -> (r: Result<Self, ClipError>)
        ensures
            has_visible_char(content@) ==> (r matches Ok(c) && c@ == content@),
            !has_visible_char(content@) ==> r == Err::<Content, ClipError>(ClipError::EmptyContent),
    {
        let cs = chars_of(content);
        let mut i: usize = 0;
        let mut visible = false;
        while i < cs.len()
            invariant
                0 <= i <= cs@.len(),
                cs@ == content@,
                visible == exists|j: int| 0 <= j < i && !whitespace_char(cs@[j]),
            decreases cs@.len() - i,
        {
            if !is_whitespace(cs[i]) {
                visible = true;
            }
            i += 1;
        }
        if visible {
            Ok(Content(content.to_owned()))
        } else {
            Err(ClipError::EmptyContent)
        }
    }

    pub fn into_inner(self) -> (r: String)
        ensures
            r@ == self@,
    {
        self.0
    }

    pub fn as_str(&self) -> (r: &str)
        ensures
            r@ == self@,
    {
        self.0.as_str()
    }
}

impl Clone for Content {
    fn clone(&self) -> (r: Self)
        ensures
            r@ == self@,
    {
        Content(self.0.clone())
    }
}

/// How many times a clip has been viewed, as stored with the clip.
#[derive(Debug)]
pub struct Hits(u64);

impl View for Hits {
    type V = u64;

    closed spec fn view(&self) -> u64 {
        self.0
    }
}

impl Hits {
    pub fn new(hits: u64) -> (r: Self)
        ensures
            r@ == hits,
    {
        Hits(hits)
    }

    pub fn into_inner(self) -> (r: u64)
        ensures
            r == self@,
    {
        self.0
    }
}

/// When a clip was posted.
#[derive(Clone, Copy, Debug)]
pub struct Posted(Time);

impl Posted {
    pub closed spec fn spec_time(&self) -> Time {
        self.0
    }

    pub fn new(time: Time) -> (r: Self)
        ensures
            r.spec_time() == time,
    {
        Posted(time)
    }

    pub fn into_inner(self) -> (r: Time)
        ensures
            r == self.spec_time(),
    {
        self.0
    }
}

/// When a clip expires; `None` means it never does.
#[derive(Clone, Copy, Debug)]
pub struct Expires(Option<Time>);

impl Expires {
    pub closed spec fn spec_time(&self) -> Option<Time> {
        self.0
    }

    pub fn new(expires: Option<Time>) -> (r: Self)
        ensures
            r.spec_time() == expires,
    {
        Expires(expires)
    }

    pub fn into_inner(self) -> (r: Option<Time>)
        ensures
            r == self.spec_time(),
    {
        self.0
    }
}

impl Default for Expires {
    /// By default a clip never expires.
    fn default() -> (r: Self)
        ensures
            r.spec_time() is None,
    {
        Expires(None)
    }
}

/// An optional password guarding a clip; the empty string counts as no
/// password at all.
#[derive(Debug)]
pub struct Password(Option<String>);

impl View for Password {
    type V = Option<Seq<char>>;

    closed spec fn view(&self) -> Option<Seq<char>> {
        match self.0 {
            Some(ref p) => Some(p@),
            None => None,
        }
    }
}

impl Password {
    /// Never fails: an empty password is simply recorded as absent.
    pub fn new(password: String) -> (r: Result<Self, ClipError>)
        ensures
            r matches Ok(p) && p@ == (if password@.len() == 0 {
                Option::<Seq<char>>::None
            } else {
                Some(password@)
            }),
    {
        if password.as_str().is_empty() {
            Ok(Password(None))
        } else {
            Ok(Password(Some(password)))
        }
    }

    pub fn into_inner(self) -> (r: Option<String>)
        ensures
            r matches Some(p) ==> self@ == Some(p@),
            r is None ==> self@ is None,
    {
        self.0
    }

    pub fn has_password(&self) -> (r: bool)
        ensures
            r == (self@ is Some),
    {
        match self.0 {
            Some(_) => true,
            None => false,
        }
    }
}

impl Default for Password {
    fn default() -> (r: Self)
        ensures
            r@ is None,
    {
        Password(None)
    }
}

impl Clone for Password {
    fn clone(&self) -> (r: Self)
        ensures
            r@ == self@,
    {
        match &self.0 {
            Some(p) => Password(Some(p.clone())),
            None => Password(None),
        }
    }
}

impl PartialEq for Password {
    fn eq(&self, other: &Password) -> (r: bool) {
        match &self.0 {
            Some(a) => match &other.0 {
                Some(b) => *a == *b,
                None => false,
            },
            None => match &other.0 {
                Some(_) => false,
                None => true,
            },
        }
    }
}

impl vstd::std_specs::cmp::PartialEqSpecImpl for Password {
    open spec fn obeys_eq_spec() -> bool {
        true
    }

    open spec fn eq_spec(&self, other: &Password) -> bool {
        self@ == other@
    }
}

/// An optional display title; blank titles are recorded as absent.
#[derive(Debug)]
pub struct Title(Option<String>);

impl View for Title {
    type V = Option<Seq<char>>;

    closed spec fn view(&self) -> Option<Seq<char>> {
        match self.0 {
            Some(ref t) => Some(t@),
            None => None,
        }
    }
}

impl Title {
    pub fn new(title: Option<String>) -> (r: Self)
        ensures
            r@ == (match title {
                Some(t) => if t@.len() == 0 {
                    Option::<Seq<char>>::None
                } else {
                    Some(t@)
                },
                None => None,
            }),
    {
        match title {
            Some(t) => {
                if t.as_str().is_empty() {
                    Title(None)
                } else {
                    Title(Some(t))
                }
            },
            None => Title(None),
        }
    }

    pub fn into_inner(self) -> (r: Option<String>)
        ensures
            r matches Some(t) ==> self@ == Some(t@),
            r is None ==> self@ is None,
    {
        self.0
    }
}

impl Default for Title {
    fn default() -> (r: Self)
        ensures
            r@ is None,
    {
        Title(None)
    }
}

impl Clone for Title {
    fn clone(&self) -> (r: Self)
        ensures
            r@ == self@,
    {
        match &self.0 {
            Some(t) => Title(Some(t.clone())),
            None => Title(None),
        }
    }
}

} // verus!
