//! A clip as the domain sees it: every field validated, built from the
//! plain row the storage layer keeps.

use vstd::prelude::*;

use crate::field::{
    has_visible_char, Content, ClipError, Expires, Hits, Password, Posted, Title,
};
use crate::shortcode::ShortCode;
use crate::store::{ClipRec, StoredClip};

verus! {

/// A stored text entry, optionally password-protected and time-limited.
#[derive(Debug)]
pub struct Clip {
    pub shortcode: ShortCode,
    pub content: Content,
    pub title: Title,
    pub posted: Posted,
    pub expires: Expires,
    pub password: Password,
    pub hits: Hits,
}

/// The password a row effectively carries: an absent or empty column
/// means the clip is unprotected.
pub open spec fn stored_password(rec: ClipRec) -> Option<Seq<char>> {
    match rec.password {
        Some(p) => if p.len() == 0 {
            None
        } else {
            Some(p)
        },
        None => None,
    }
}

/// How a domain clip reflects a stored row.
pub open spec fn clip_matches_rec(c: Clip, rec: ClipRec) -> bool {
    &&& c.shortcode@ == rec.shortcode
    &&& c.content@ == rec.content
    &&& c.title@ == (match rec.title {
        Some(t) => if t.len() == 0 {
            Option::<Seq<char>>::None
        } else {
            Some(t)
        },
        None => None,
    })
    &&& c.posted.spec_time().spec_seconds() == rec.posted
    &&& (match (c.expires.spec_time(), rec.expires) {
        (Some(t), Some(e)) => t.spec_seconds() == e,
        (None, None) => true,
        _ => false,
    })
    &&& c.password@ == stored_password(rec)
    &&& c.hits@ == rec.hits
}

impl Clip {
    /// Validates a stored row into a domain clip; the only thing that can
    /// go wrong is blank content.
    pub fn try_from_row(row: &StoredClip) -> (r: Result<Clip, ClipError>)
        ensures
            has_visible_char(row.content@) ==> (r matches Ok(c) && clip_matches_rec(c, row.rec())),
            !has_visible_char(row.content@) ==> r == Err::<Clip, ClipError>(
                ClipError::EmptyContent,
            ),
    {
        let content = match Content::new(row.content.as_str()) {
            Ok(c) => c,
            Err(e) => {
                return Err(e);
            },
        };
        let title = Title::new(
            match &row.title {
                Some(t) => Some(t.clone()),
                None => None,
            },
        );
        let password = match Password::new(
            match &row.password {
                Some(p) => p.clone(),
                None => String::new(),
            },
        ) {
            Ok(p) => p,
            Err(e) => {
                return Err(e);
            },
        };
        Ok(
            Clip {
                shortcode: row.shortcode.clone(),
                content,
                title,
                posted: Posted::new(row.posted),
                expires: Expires::new(row.expires),
                password,
                hits: Hits::new(row.hits),
            },
        )
    }
}

} // verus!
