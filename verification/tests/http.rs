//! The web layer's request decisions against the in-memory store.

use clipstash::ask;
use clipstash::field::{Content, Expires, Password, Time, Title};
use clipstash::service;
use clipstash::store::{MemoryStore, StoreError, StoredClip};
use clipstash::web::{respond, Method, Request};
use clipstash::ShortCode;

fn get(path: &str) -> Request {
    Request {
        method: Method::Get,
        path: path.to_string(),
        form_password: None,
        cookie_password: None,
    }
}

#[test]
fn gets_home() {
    let store = MemoryStore::new();
    let (res, _) = respond(&get("/"), &store);
    assert_eq!(res.status, 200);
}

#[test]
fn not_found__error_on_unknown_clip_shortcode() {
    let store = MemoryStore::new();
    let (res, _) = respond(&get("/clip/foo"), &store);
    assert_eq!(res.status, 404);
}

#[test]
fn requires_pwd_if_defined() {
    let mut store = MemoryStore::new();
    let req = ask::NewClip {
        content: Content::new("content").unwrap(),
        expires: Expires::default(),
        password: Password::new("123".to_owned()).unwrap(),
        title: Title::default(),
    };
    let clip = service::new_clip(req, &mut store, Time::from_seconds(0)).unwrap();
    let shortcode = clip.shortcode.as_str().to_string();

    // Unauthorized when no password is provided.
    let (res, _) = respond(&get(&format!("/clip/{}", shortcode)), &store);
    assert_eq!(res.status, 401);

    let (res, _) = respond(&get(&format!("/clip/raw/{}", shortcode)), &store);
    assert_eq!(res.status, 401);

    // The clip page once the password is posted.
    let post = Request {
        method: Method::Post,
        path: format!("/clip/{}", shortcode),
        form_password: Some("123".to_string()),
        cookie_password: None,
    };
    let (res, _) = respond(&post, &store);
    assert_eq!(res.status, 200);

    // The raw clip once the password cookie is set.
    let raw_ok = Request {
        method: Method::Get,
        path: format!("/clip/raw/{}", shortcode),
        form_password: None,
        cookie_password: Some("123".to_string()),
    };
    let (res, _) = respond(&raw_ok, &store);
    assert_eq!(res.status, 200);

    // Refused again when the cookie password is wrong.
    let raw_bad = Request {
        method: Method::Get,
        path: format!("/clip/raw/{}", shortcode),
        form_password: None,
        cookie_password: Some("abc".to_string()),
    };
    let (res, _) = respond(&raw_bad, &store);
    assert_eq!(res.status, 401);
}

#[test]
fn clip_view_submits_one_hit() {
    let mut store = MemoryStore::new();
    let req = ask::NewClip {
        content: Content::new("content").unwrap(),
        expires: Expires::default(),
        password: Password::default(),
        title: Title::default(),
    };
    let clip = service::new_clip(req, &mut store, Time::from_seconds(0)).unwrap();
    let shortcode = clip.shortcode.as_str().to_string();
    let (res, hit) = respond(&get(&format!("/clip/{}", shortcode)), &store);
    assert_eq!(res.status, 200);
    let (sc, n) = hit.expect("a shown clip must submit a hit");
    assert_eq!(sc.as_str(), shortcode.as_str());
    assert_eq!(n, 1);

    // An unauthorized view submits none.
    let (_, hit) = respond(&get("/clip/missing"), &store);
    assert!(hit.is_none());
}

#[test]
fn raw_clip_returns_content() {
    let mut store = MemoryStore::new();
    let req = ask::NewClip {
        content: Content::new("the raw text").unwrap(),
        expires: Expires::default(),
        password: Password::default(),
        title: Title::default(),
    };
    let clip = service::new_clip(req, &mut store, Time::from_seconds(0)).unwrap();
    let path = format!("/clip/raw/{}", clip.shortcode.as_str());
    let (res, hit) = respond(&get(&path), &store);
    assert_eq!(res.status, 200);
    assert!(hit.is_some());
    match res.page {
        clipstash::web::Page::RawText(t) => assert_eq!(t, "the raw text"),
        _ => panic!("expected the raw text page"),
    }
}

#[test]
fn unknown_method_or_path_is_caught() {
    let store = MemoryStore::new();
    let post_home = Request {
        method: Method::Post,
        path: "/".to_string(),
        form_password: None,
        cookie_password: None,
    };
    let (res, hit) = respond(&post_home, &store);
    assert_eq!(res.status, 404);
    assert!(hit.is_none());
}

#[test]
fn route_and_catcher_tables() {
    let routes = clipstash::web::routes();
    assert_eq!(
        routes,
        vec!["/", "/clip/<shortcode>", "/", "/clip/<shortcode>", "/clip/raw/<shortcode>"]
    );
    let catchers = clipstash::web::catchers();
    assert_eq!(catchers.len(), 3);
    assert_eq!(catchers[0], clipstash::web::Catcher::NotFound);
    assert_eq!(clipstash::web::not_found(), "404");
    assert_eq!(clipstash::web::internal_error(), "internal server error");
    assert_eq!(clipstash::web::default_catcher(), "Something went wrong");
}

#[test]
fn get_clip_enforces_password() {
    let mut store = MemoryStore::new();
    let req = ask::NewClip {
        content: Content::new("secret").unwrap(),
        expires: Expires::default(),
        password: Password::new("pw".to_owned()).unwrap(),
        title: Title::default(),
    };
    let clip = service::new_clip(req, &mut store, Time::from_seconds(7)).unwrap();
    let sc = ShortCode::from_raw(clip.shortcode.as_str());

    let wrong = service::get_clip(
        ask::GetClip {
            shortcode: ShortCode::from_raw(sc.as_str()),
            password: Password::new("nope".to_owned()).unwrap(),
        },
        &store,
    );
    assert!(matches!(wrong, Err(service::ServiceError::PermissionError(_))));

    let right = service::get_clip(
        ask::GetClip {
            shortcode: ShortCode::from_raw(sc.as_str()),
            password: Password::new("pw".to_owned()).unwrap(),
        },
        &store,
    )
    .unwrap();
    assert_eq!(right.content.as_str(), "secret");
    assert_eq!(right.posted.into_inner().seconds(), 7);

    let missing = service::get_clip(ask::GetClip::from_raw("zzzz999999"), &store);
    assert!(matches!(missing, Err(service::ServiceError::NotFound)));
}

#[test]
fn blank_stored_content_is_a_clip_error() {
    let mut store = MemoryStore::new();
    store
        .save_clip(StoredClip {
            shortcode: ShortCode::from_raw("blank00000"),
            content: "   ".to_string(),
            title: None,
            posted: Time::from_seconds(0),
            expires: None,
            password: None,
            hits: 0,
        })
        .unwrap();
    let r = service::get_clip(ask::GetClip::from_raw("blank00000"), &store);
    assert!(matches!(
        r,
        Err(service::ServiceError::Clip(clipstash::ClipError::EmptyContent))
    ));
}

#[test]
fn duplicate_shortcode_is_refused() {
    let mut store = MemoryStore::new();
    let row = || StoredClip {
        shortcode: ShortCode::from_raw("same000000"),
        content: "x".to_string(),
        title: None,
        posted: Time::from_seconds(0),
        expires: None,
        password: None,
        hits: 0,
    };
    assert!(store.save_clip(row()).is_ok());
    assert_eq!(store.save_clip(row()), Err(StoreError::DuplicateShortcode));
}

#[test]
fn update_rewrites_fields_but_keeps_identity() {
    let mut store = MemoryStore::new();
    let created = service::new_clip(
        ask::NewClip {
            content: Content::new("first version").unwrap(),
            expires: Expires::default(),
            password: Password::default(),
            title: Title::default(),
        },
        &mut store,
        Time::from_seconds(3),
    )
    .unwrap();
    let shortcode = created.shortcode.as_str().to_string();

    let updated = service::update_clip(
        ask::UpdateClip {
            shortcode: ShortCode::from_raw(&shortcode),
            content: Content::new("second version").unwrap(),
            expires: Expires::default(),
            password: Password::new("now guarded".to_owned()).unwrap(),
            title: Title::new(Some("named".to_string())),
        },
        &mut store,
    )
    .unwrap();
    assert_eq!(updated.content.as_str(), "second version");
    assert_eq!(updated.posted.into_inner().seconds(), 3);
    assert_eq!(updated.hits.into_inner(), 0);

    // The stored clip now demands the new password.
    let no_pwd = service::get_clip(ask::GetClip::from_raw(&shortcode), &store);
    assert!(matches!(no_pwd, Err(service::ServiceError::PermissionError(_))));
    let with_pwd = service::get_clip(
        ask::GetClip {
            shortcode: ShortCode::from_raw(&shortcode),
            password: Password::new("now guarded".to_owned()).unwrap(),
        },
        &store,
    )
    .unwrap();
    assert_eq!(with_pwd.content.as_str(), "second version");
    assert_eq!(with_pwd.title.into_inner(), Some("named".to_string()));

    let missing = service::update_clip(
        ask::UpdateClip {
            shortcode: ShortCode::from_raw("nosuchcode"),
            content: Content::new("x").unwrap(),
            expires: Expires::default(),
            password: Password::default(),
            title: Title::default(),
        },
        &mut store,
    );
    assert!(matches!(missing, Err(service::ServiceError::NotFound)));
}
