//! The requests the service layer answers.

use vstd::prelude::*;

use crate::field::{Content, Expires, Password, Title};
use crate::shortcode::ShortCode;

verus! {

/// A request to fetch one clip, with whatever password the caller has.
pub struct GetClip {
    pub shortcode: ShortCode,
    pub password: Password,
}

impl GetClip {
    /// A lookup by raw shortcode text, with no password.
    pub fn from_raw(shortcode: &str) -> (r: Self)
        ensures
            r.shortcode@ == shortcode@,
            r.password@ is None,
    {
        GetClip { shortcode: ShortCode::from_raw(shortcode), password: Password::default() }
    }

    /// A lookup by shortcode, with no password.
    pub fn from_shortcode(shortcode: ShortCode) -> (r: Self)
        ensures
            r.shortcode == shortcode,
            r.password@ is None,
    {
        GetClip { shortcode, password: Password::default() }
    }
}

/// A request to create a clip; every field arrives already validated.
pub struct NewClip {
    pub content: Content,
    pub title: Title,
    pub expires: Expires,
    pub password: Password,
}

/// A request to rewrite an existing clip's fields.
pub struct UpdateClip {
    pub shortcode: ShortCode,
    pub content: Content,
    pub title: Title,
    pub expires: Expires,
    pub password: Password,
}

} // verus!
