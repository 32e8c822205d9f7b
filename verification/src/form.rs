//! The forms the web front end submits; their fields arrive already
//! validated as domain types.

use vstd::prelude::*;

use crate::field::{Content, Expires, Password, Title};

verus! {

/// The clip-creation form.
pub struct NewClip {
    pub content: Content,
    pub title: Title,
    pub expires: Expires,
    pub password: Password,
}

/// The password form shown for a protected clip.
pub struct GetPasswordProtectedClip {
    pub password: Password,
}

} // verus!
