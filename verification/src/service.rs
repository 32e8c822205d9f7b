//! The service actions the rest of the system calls: fetch a clip
//! (enforcing its password) and create one, both against the persistence
//! model.

use vstd::prelude::*;

use crate::ask;
use crate::clip::{clip_matches_rec, stored_password, Clip};
use crate::field::{has_visible_char, ClipError, Hits, Posted, Time};
use crate::shortcode::{is_shortcode_char, shortcode_len, ShortCode};
use crate::store::{has_clip, rec_with_fields, ClipRec, MemoryStore, StoreError, StoredClip};

verus! {

/// What a service action can report.
#[derive(Debug)]
pub enum ServiceError {
    /// A stored row failed domain validation.
    Clip(ClipError),
    /// The storage layer refused the operation.
    Data(StoreError),
    /// No clip carries the requested shortcode.
    NotFound,
    /// The clip is password-protected and the given password is wrong.
    PermissionError(String),
}

impl vstd::std_specs::convert::FromSpecImpl<StoreError> for ServiceError {
    open spec fn obeys_from_spec() -> bool {
        true
    }

    open spec fn from_spec(e: StoreError) -> ServiceError {
        match e {
            StoreError::MissingClip => ServiceError::NotFound,
            StoreError::DuplicateShortcode => ServiceError::Data(StoreError::DuplicateShortcode),
        }
    }
}

impl From<StoreError> for ServiceError {
    /// A missing row surfaces as `NotFound`; anything else stays a
    /// storage error.
    fn from(e: StoreError) -> (r: ServiceError) {
        match e {
            StoreError::MissingClip => ServiceError::NotFound,
            StoreError::DuplicateShortcode => ServiceError::Data(StoreError::DuplicateShortcode),
        }
    }
}

/// What fetching one stored row with a given password yields: blank
/// content is a validation error, a wrong password on a protected clip is
/// a permission error, and everything else is the clip itself.
pub open spec fn get_clip_outcome(
    rec: ClipRec,
    given: Option<Seq<char>>,
    r: Result<Clip, ServiceError>,
) -> bool {
    if !has_visible_char(rec.content) {
        r == Err::<Clip, ServiceError>(ServiceError::Clip(ClipError::EmptyContent))
    } else if stored_password(rec) is Some && stored_password(rec) != given {
        (r matches Err(ServiceError::PermissionError(m)) && m@ == "Invalid password"@)
    } else {
        (r matches Ok(c) && clip_matches_rec(c, rec))
    }
}

/// Fetches the clip with the requested shortcode, enforcing its password.
pub fn get_clip(req: ask::GetClip, store: &MemoryStore) -> (r: Result<Clip, ServiceError>)
    ensures
        !has_clip(store@, req.shortcode@) ==> r == Err::<Clip, ServiceError>(
            ServiceError::NotFound,
        ),
        has_clip(store@, req.shortcode@) ==> exists|i: int|
            0 <= i < store@.len() && (#[trigger] store@[i]).shortcode == req.shortcode@
                && get_clip_outcome(store@[i], req.password@, r),
{
    let row = match store.get(&req.shortcode) {
        Some(row) => row,
        None => {
            return Err(ServiceError::NotFound);
        },
    };
    let ghost wi = choose|i: int| 0 <= i < store@.len() && store@[i] == row.rec();
    let clip = match Clip::try_from_row(row) {
        Ok(c) => c,
        Err(e) => {
            proof {
                assert(get_clip_outcome(store@[wi], req.password@, Err(ServiceError::Clip(e))));
            }
            return Err(ServiceError::Clip(e));
        },
    };
    if clip.password.has_password() {
        if clip.password == req.password {
            Ok(clip)
        } else {
            Err(ServiceError::PermissionError("Invalid password".to_owned()))
        }
    } else {
        Ok(clip)
    }
}

/// The row image a freshly built clip stands for.
pub open spec fn clip_rec(c: Clip) -> ClipRec {
    ClipRec {
        shortcode: c.shortcode@,
        content: c.content@,
        title: c.title@,
        posted: c.posted.spec_time().spec_seconds(),
        expires: match c.expires.spec_time() {
            Some(t) => Some(t.spec_seconds()),
            None => None,
        },
        password: c.password@,
        hits: c.hits@,
    }
}

/// Creates a clip under a freshly drawn shortcode, posted at `now`, with
/// no hits yet; fails, changing nothing, only when the drawn shortcode is
/// already taken.
pub fn new_clip(req: ask::NewClip, store: &mut MemoryStore, now: Time) -> (r: Result<
    Clip,
    ServiceError,
>)
    ensures
        final(store).spec_txs_begun() == old(store).spec_txs_begun(),
        final(store).spec_txs_committed() == old(store).spec_txs_committed(),
        r matches Ok(clip) ==> ({
            &&& clip.content@ == req.content@
            &&& clip.title@ == req.title@
            &&& clip.expires.spec_time() == req.expires.spec_time()
            &&& clip.password@ == req.password@
            &&& clip.posted.spec_time() == now
            &&& clip.hits@ == 0
            &&& clip.shortcode@.len() == shortcode_len()
            &&& forall|i: int|
                0 <= i < clip.shortcode@.len() ==> is_shortcode_char(#[trigger] clip.shortcode@[i])
            &&& !has_clip(old(store)@, clip.shortcode@)
            &&& final(store)@ == old(store)@.push(clip_rec(clip))
        }),
        r is Err ==> final(store)@ == old(store)@ && r == Err::<Clip, ServiceError>(
            ServiceError::Data(StoreError::DuplicateShortcode),
        ),
{
    let clip = Clip {
        shortcode: ShortCode::new(),
        content: req.content,
        title: req.title,
        posted: Posted::new(now),
        expires: req.expires,
        password: req.password,
        hits: Hits::new(0),
    };
    let row = StoredClip {
        shortcode: clip.shortcode.clone(),
        content: clip.content.as_str().to_owned(),
        title: clip.title.clone().into_inner(),
        posted: clip.posted.into_inner(),
        expires: clip.expires.into_inner(),
        password: clip.password.clone().into_inner(),
        hits: 0,
    };
    proof {
        assert(row.rec() == clip_rec(clip));
    }
    match store.save_clip(row) {
        Ok(()) => Ok(clip),
        Err(e) => Err(ServiceError::from(e)),
    }
}

/// Rewrites an existing clip's content, title, expiry and password; its
/// shortcode, posting time and hit count stay. Fails only when no clip
/// carries the shortcode.
pub fn update_clip(req: ask::UpdateClip, store: &mut MemoryStore) -> (r: Result<
    Clip,
    ServiceError,
>)
    ensures
        final(store).spec_txs_begun() == old(store).spec_txs_begun(),
        final(store).spec_txs_committed() == old(store).spec_txs_committed(),
        !has_clip(old(store)@, req.shortcode@) ==> (r matches Err(e) && e is NotFound
            && final(store)@ == old(store)@),
        has_clip(old(store)@, req.shortcode@) ==> exists|i: int|
            0 <= i < old(store)@.len() && (#[trigger] old(store)@[i]).shortcode == req.shortcode@
                && final(store)@ == old(store)@.update(
                i,
                rec_with_fields(
                    old(store)@[i],
                    req.content@,
                    req.title@,
                    match req.expires.spec_time() {
                        Some(t) => Some(t.spec_seconds()),
                        None => None,
                    },
                    req.password@,
                ),
            ) && (r matches Ok(c) && c.shortcode@ == req.shortcode@ && c.content@ == req.content@
                && c.title@ == req.title@ && c.expires.spec_time() == req.expires.spec_time()
                && c.password@ == req.password@ && c.posted.spec_time().spec_seconds() == old(
                store,
            )@[i].posted && c.hits@ == old(store)@[i].hits),
{
    proof {
        use_type_invariant(&*store);
    }
    let ghost s0 = store@;
    let found = match store.get(&req.shortcode) {
        Some(row) => {
            let ghost orec = row.rec();
            (row.posted, row.hits, Ghost(orec))
        },
        None => {
            return Err(ServiceError::NotFound);
        },
    };
    let (posted, hits, orec) = found;
    let upd = store.update_clip_row(
        &req.shortcode,
        req.content.as_str().to_owned(),
        req.title.clone().into_inner(),
        req.expires.into_inner(),
        req.password.clone().into_inner(),
    );
    match upd {
        Ok(()) => {
            proof {
                let k = choose|k: int| 0 <= k < s0.len() && s0[k] == orec@;
                let w = choose|w: int|
                    0 <= w < s0.len() && (#[trigger] s0[w]).shortcode == req.shortcode@ && store@
                        == s0.update(
                        w,
                        rec_with_fields(
                            s0[w],
                            req.content@,
                            req.title@,
                            match req.expires.spec_time() {
                                Some(t) => Some(t.spec_seconds()),
                                None => None,
                            },
                            req.password@,
                        ),
                    );
                assert(k == w);
                assert(s0[w].posted == posted.spec_seconds());
                assert(s0[w].hits == hits);
            }
            Ok(
                Clip {
                    shortcode: req.shortcode,
                    content: req.content,
                    title: req.title,
                    posted: Posted::new(posted),
                    expires: req.expires,
                    password: req.password,
                    hits: Hits::new(hits),
                },
            )
        },
        Err(e) => {
            proof {
                assert(false);
            }
            Err(ServiceError::from(e))
        },
    }
}

} // verus!
