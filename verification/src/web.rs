//! The web layer's decisions, separated from any rendering or transport:
//! page contexts, the route and catcher tables, and `respond`, which maps
//! one request to a status, a page, and the hit submission it owes the
//! aggregator.

use vstd::prelude::*;

use crate::ask;
use crate::clip::{clip_matches_rec, stored_password, Clip};
use crate::field::{chars_of, has_visible_char, Password};
use crate::service::{get_clip, get_clip_outcome, ServiceError};
use crate::shortcode::ShortCode;
use crate::store::{has_clip, ClipRec, MemoryStore};

verus! {

/// What a page context exposes to the renderer.
pub trait PageCtx {
    spec fn spec_title(&self) -> Seq<char>;

    spec fn spec_template_path(&self) -> Seq<char>;

    spec fn spec_parent(&self) -> Seq<char>;

    fn title(&self) -> (r: &str)
        ensures
            r@ == self.spec_title(),
    ;

    fn template_path(&self) -> (r: &str)
        ensures
            r@ == self.spec_template_path(),
    ;

    fn parent(&self) -> (r: &str)
        ensures
            r@ == self.spec_parent(),
    ;
}

/// The landing page.
pub struct Home {}

impl Default for Home {
    fn default() -> (r: Self)
        ensures
            r == (Home {  }),
    {
        Home {  }
    }
}

impl PageCtx for Home {
    open spec fn spec_title(&self) -> Seq<char> {
        "Stash Your Clipboard!"@
    }

    open spec fn spec_template_path(&self) -> Seq<char> {
        "home"@
    }

    open spec fn spec_parent(&self) -> Seq<char> {
        "base"@
    }

    fn title(&self) -> (r: &str) {
        "Stash Your Clipboard!"
    }

    fn template_path(&self) -> (r: &str) {
        "home"
    }

    fn parent(&self) -> (r: &str) {
        "base"
    }
}

/// The page showing one clip.
pub struct ViewClip {
    pub clip: Clip,
}

impl ViewClip {
    pub fn new(clip: Clip) -> (r: Self)
        ensures
            r.clip == clip,
    {
        ViewClip { clip }
    }
}

impl PageCtx for ViewClip {
    open spec fn spec_title(&self) -> Seq<char> {
        "View Clip"@
    }

    open spec fn spec_template_path(&self) -> Seq<char> {
        "clip"@
    }

    open spec fn spec_parent(&self) -> Seq<char> {
        "base"@
    }

    fn title(&self) -> (r: &str) {
        "View Clip"
    }

    fn template_path(&self) -> (r: &str) {
        "clip"
    }

    fn parent(&self) -> (r: &str) {
        "base"
    }
}

/// The page asking for a protected clip's password.
pub struct PasswordRequired {
    shortcode: ShortCode,
}

impl PasswordRequired {
    pub closed spec fn spec_shortcode(&self) -> ShortCode {
        self.shortcode
    }

    pub fn new(shortcode: ShortCode) -> (r: Self)
        ensures
            r.spec_shortcode() == shortcode,
    {
        PasswordRequired { shortcode }
    }
}

impl PageCtx for PasswordRequired {
    open spec fn spec_title(&self) -> Seq<char> {
        "Password Required"@
    }

    open spec fn spec_template_path(&self) -> Seq<char> {
        "clip_need_password"@
    }

    open spec fn spec_parent(&self) -> Seq<char> {
        "base"@
    }

    fn title(&self) -> (r: &str) {
        "Password Required"
    }

    fn template_path(&self) -> (r: &str) {
        "clip_need_password"
    }

    fn parent(&self) -> (r: &str) {
        "base"
    }
}

/// How serving a page can fail, with the text shown for it.
pub enum PageError {
    Serialization(String),
    Render(String),
    NotFound(String),
    Internal(String),
}

/// The catchers registered with the front end, in mount order.
#[derive(Clone, Copy, Debug, PartialEq, Eq, Structural)]
pub enum Catcher {
    NotFound,
    CatchAll,
    InternalError,
}

/// The paths the front end mounts, in mount order: the home page, the
/// clip view, clip creation, the password form, and the raw clip text.
pub fn routes() -> (r: Vec<&'static str>)
    ensures
        r@.len() == 5,
        r@[0]@ == "/"@,
        r@[1]@ == "/clip/<shortcode>"@,
        r@[2]@ == "/"@,
        r@[3]@ == "/clip/<shortcode>"@,
        r@[4]@ == "/clip/raw/<shortcode>"@,
{
    let mut r: Vec<&'static str> = Vec::new();
    r.push("/");
    r.push("/clip/<shortcode>");
    r.push("/");
    r.push("/clip/<shortcode>");
    r.push("/clip/raw/<shortcode>");
    r
}

/// What the 404 catcher shows.
pub fn not_found() -> (r: &'static str)
    ensures
        r@ == "404"@,
{
    "404"
}

/// What the catch-all catcher shows.
pub fn default_catcher() -> (r: &'static str)
    ensures
        r@ == "Something went wrong"@,
{
    "Something went wrong"
}

/// What the 500 catcher shows.
pub fn internal_error() -> (r: &'static str)
    ensures
        r@ == "internal server error"@,
{
    "internal server error"
}

pub fn catchers() -> (r: Vec<Catcher>)
    ensures
        r@ == seq![Catcher::NotFound, Catcher::CatchAll, Catcher::InternalError],
{
    let mut r: Vec<Catcher> = Vec::new();
    r.push(Catcher::NotFound);
    r.push(Catcher::CatchAll);
    r.push(Catcher::InternalError);
    proof {
        assert(r@ =~= seq![Catcher::NotFound, Catcher::CatchAll, Catcher::InternalError]);
    }
    r
}

/// The request method, as far as these routes care.
#[derive(Clone, Copy, Debug, PartialEq, Eq, Structural)]
pub enum Method {
    Get,
    Post,
}

/// One request, reduced to what the handlers decide on.
pub struct Request {
    pub method: Method,
    pub path: String,
    /// The password field of a submitted form, if any.
    pub form_password: Option<String>,
    /// The password cookie, if the browser sent one.
    pub cookie_password: Option<String>,
}

/// The page a handler decided to show.
pub enum Page {
    HomePage(Home),
    ClipPage(ViewClip),
    NeedPassword(PasswordRequired),
    RawText(String),
    ErrorText(String),
}

/// A decided response: the status code and the page to render.
pub struct Response {
    pub status: u16,
    pub page: Page,
}

pub open spec fn strip_prefix_spec(p: Seq<char>, pre: Seq<char>) -> bool {
    p.len() > pre.len() && p.subrange(0, pre.len() as int) == pre
}

pub open spec fn is_raw_path(p: Seq<char>) -> bool {
    strip_prefix_spec(p, "/clip/raw/"@)
}

pub open spec fn raw_code(p: Seq<char>) -> Seq<char> {
    p.subrange("/clip/raw/"@.len() as int, p.len() as int)
}

pub open spec fn is_clip_path(p: Seq<char>) -> bool {
    !is_raw_path(p) && strip_prefix_spec(p, "/clip/"@)
}

pub open spec fn clip_code(p: Seq<char>) -> Seq<char> {
    p.subrange("/clip/"@.len() as int, p.len() as int)
}

/// A password as text, normalized the way `Password::new` stores it: the
/// empty string counts as none.
pub open spec fn given_password(raw: Option<Seq<char>>) -> Option<Seq<char>> {
    match raw {
        Some(p) => if p.len() == 0 {
            Option::<Seq<char>>::None
        } else {
            Some(p)
        },
        None => None,
    }
}

pub open spec fn opt_view(o: Option<String>) -> Option<Seq<char>> {
    match o {
        Some(s) => Some(s@),
        None => None,
    }
}

/// One case of viewing a clip's page with a given password.
pub open spec fn page_case(
    rec: ClipRec,
    given: Option<Seq<char>>,
    r: (Response, Option<(ShortCode, u32)>),
) -> bool {
    if !has_visible_char(rec.content) {
        r.0.status == 500 && r.1 is None
    } else if stored_password(rec) is Some && stored_password(rec) != given {
        r.0.status == 401 && (r.0.page matches Page::NeedPassword(p) && p.spec_shortcode()@
            == rec.shortcode) && r.1 is None
    } else {
        r.0.status == 200 && (r.0.page matches Page::ClipPage(v) && clip_matches_rec(v.clip, rec))
            && (r.1 matches Some(h) && h.0@ == rec.shortcode && h.1 == 1)
    }
}

/// `GET /clip/<code>`: the clip page, a password prompt, or an error —
/// and one hit submitted exactly when the clip is shown.
pub open spec fn view_page_outcome(
    recs: Seq<ClipRec>,
    code: Seq<char>,
    given: Option<Seq<char>>,
    r: (Response, Option<(ShortCode, u32)>),
) -> bool {
    if !has_clip(recs, code) {
        r.0.status == 404 && r.1 is None
    } else {
        exists|i: int|
            0 <= i < recs.len() && (#[trigger] recs[i]).shortcode == code && page_case(
                recs[i],
                given,
                r,
            )
    }
}

/// One case of answering the password form.
pub open spec fn submit_case(
    rec: ClipRec,
    given: Option<Seq<char>>,
    r: (Response, Option<(ShortCode, u32)>),
) -> bool {
    if !has_visible_char(rec.content) {
        r.0.status == 500 && r.1 is None
    } else if stored_password(rec) is Some && stored_password(rec) != given {
        r.0.status == 200 && (r.0.page matches Page::NeedPassword(p) && p.spec_shortcode()@
            == rec.shortcode) && r.1 is None
    } else {
        r.0.status == 200 && (r.0.page matches Page::ClipPage(v) && clip_matches_rec(v.clip, rec))
            && (r.1 matches Some(h) && h.0@ == rec.shortcode && h.1 == 1)
    }
}

/// `POST /clip/<code>`: without a form password the prompt is shown
/// again; with one, the clip or the prompt, never an unauthorized status.
pub open spec fn submit_outcome(
    recs: Seq<ClipRec>,
    code: Seq<char>,
    form: Option<Seq<char>>,
    r: (Response, Option<(ShortCode, u32)>),
) -> bool {
    match form {
        None => r.0.status == 200 && (r.0.page matches Page::NeedPassword(p) && p.spec_shortcode()@
            == code) && r.1 is None,
        Some(_) => if !has_clip(recs, code) {
            r.0.status == 404 && r.1 is None
        } else {
            exists|i: int|
                0 <= i < recs.len() && (#[trigger] recs[i]).shortcode == code && submit_case(
                    recs[i],
                    given_password(form),
                    r,
                )
        },
    }
}

/// One case of serving the raw clip text with the cookie password.
pub open spec fn raw_case(
    rec: ClipRec,
    given: Option<Seq<char>>,
    r: (Response, Option<(ShortCode, u32)>),
) -> bool {
    if !has_visible_char(rec.content) {
        r.0.status == 500 && r.1 is None
    } else if stored_password(rec) is Some && stored_password(rec) != given {
        r.0.status == 401 && (r.0.page matches Page::RawText(m) && m@ == "Invalid password"@)
            && r.1 is None
    } else {
        r.0.status == 200 && (r.0.page matches Page::RawText(t) && t@ == rec.content) && (
        r.1 matches Some(h) && h.0@ == rec.shortcode && h.1 == 1)
    }
}

/// `GET /clip/raw/<code>`: the raw text, the refusal message, or an
/// error — and one hit submitted exactly when the text is served.
pub open spec fn raw_outcome(
    recs: Seq<ClipRec>,
    code: Seq<char>,
    cookie: Option<Seq<char>>,
    r: (Response, Option<(ShortCode, u32)>),
) -> bool {
    if !has_clip(recs, code) {
        r.0.status == 404 && r.1 is None
    } else {
        exists|i: int|
            0 <= i < recs.len() && (#[trigger] recs[i]).shortcode == code && raw_case(
                recs[i],
                given_password(cookie),
                r,
            )
    }
}

fn chars_eq_lit(cs: &Vec<char>, s: &str) -> (b: bool)
    ensures
        b == (cs@ == s@),
{
    let sc = chars_of(s);
    if cs.len() != sc.len() {
        return false;
    }
    let mut i: usize = 0;
    while i < cs.len()
        invariant
            sc@ == s@,
            cs@.len() == sc@.len(),
            0 <= i <= cs@.len(),
            forall|j: int| 0 <= j < i ==> cs@[j] == sc@[j],
        decreases cs@.len() - i,
    {
        if cs[i] != sc[i] {
            return false;
        }
        i += 1;
    }
    proof {
        assert(cs@ =~= sc@);
    }
    true
}

fn strip_prefix_chars(cs: &Vec<char>, prefix: &str) -> (r: Option<Vec<char>>)
    ensures
        r is Some <==> strip_prefix_spec(cs@, prefix@),
        r matches Some(rest) ==> rest@ == cs@.subrange(prefix@.len() as int, cs@.len() as int),
{
    let pc = chars_of(prefix);
    if cs.len() <= pc.len() {
        return None;
    }
    let mut i: usize = 0;
    while i < pc.len()
        invariant
            pc@ == prefix@,
            cs@.len() > pc@.len(),
            0 <= i <= pc@.len(),
            forall|j: int| 0 <= j < i ==> cs@[j] == pc@[j],
        decreases pc@.len() - i,
    {
        if cs[i] != pc[i] {
            proof {
                assert(cs@.subrange(0, pc@.len() as int)[i as int] == cs@[i as int]);
            }
            return None;
        }
        i += 1;
    }
    proof {
        assert(cs@.subrange(0, pc@.len() as int) =~= pc@);
    }
    let mut rest: Vec<char> = Vec::new();
    let mut j: usize = pc.len();
    while j < cs.len()
        invariant
            pc@ == prefix@,
            cs@.len() > pc@.len(),
            pc@.len() <= j <= cs@.len(),
            rest@ == cs@.subrange(pc@.len() as int, j as int),
        decreases cs@.len() - j,
    {
        rest.push(cs[j]);
        j += 1;
        proof {
            assert(cs@.subrange(pc@.len() as int, j as int) =~= cs@.subrange(
                pc@.len() as int,
                j - 1,
            ).push(cs@[j - 1]));
        }
    }
    Some(rest)
}

fn view_clip_page(shortcode: ShortCode, store: &MemoryStore) -> (r: (
    Response,
    Option<(ShortCode, u32)>,
))
    ensures
        view_page_outcome(store@, shortcode@, None::<Seq<char>>, r),
{
    let ghost code = shortcode@;
    let res = get_clip(ask::GetClip::from_shortcode(shortcode.clone()), store);
    match res {
        Ok(clip) => {
            let out = (
                Response { status: 200, page: Page::ClipPage(ViewClip::new(clip)) },
                Some((shortcode, 1u32)),
            );
            proof {
                let i = choose|i: int|
                    0 <= i < store@.len() && (#[trigger] store@[i]).shortcode == code
                        && get_clip_outcome(store@[i], None::<Seq<char>>, res);
                assert(page_case(store@[i], None::<Seq<char>>, out));
            }
            out
        },
        Err(ServiceError::NotFound) => (
            Response { status: 404, page: Page::ErrorText("Clip not found".to_owned()) },
            None,
        ),
        Err(ServiceError::PermissionError(_)) => {
            let out = (
                Response { status: 401, page: Page::NeedPassword(PasswordRequired::new(shortcode)) },
                None,
            );
            proof {
                let i = choose|i: int|
                    0 <= i < store@.len() && (#[trigger] store@[i]).shortcode == code
                        && get_clip_outcome(store@[i], None::<Seq<char>>, res);
                assert(page_case(store@[i], None::<Seq<char>>, out));
            }
            out
        },
        Err(_) => {
            let out = (
                Response { status: 500, page: Page::ErrorText("server error".to_owned()) },
                None,
            );
            proof {
                let i = choose|i: int|
                    0 <= i < store@.len() && (#[trigger] store@[i]).shortcode == code
                        && get_clip_outcome(store@[i], None::<Seq<char>>, res);
                assert(page_case(store@[i], None::<Seq<char>>, out));
            }
            out
        },
    }
}

fn submit_password_page(shortcode: ShortCode, form_password: &Option<String>, store: &MemoryStore)
    -> (r: (Response, Option<(ShortCode, u32)>))
    ensures
        submit_outcome(store@, shortcode@, opt_view(*form_password), r),
{
    let ghost code = shortcode@;
    let raw = match form_password {
        Some(s) => s.clone(),
        None => {
            return (
                Response { status: 200, page: Page::NeedPassword(PasswordRequired::new(shortcode)) },
                None,
            );
        },
    };
    let password = match Password::new(raw) {
        Ok(p) => p,
        Err(_) => {
            proof {
                assert(false);
            }
            Password::default()
        },
    };
    let ghost given = password@;
    let res = get_clip(ask::GetClip { shortcode: shortcode.clone(), password }, store);
    match res {
        Ok(clip) => {
            let out = (
                Response { status: 200, page: Page::ClipPage(ViewClip::new(clip)) },
                Some((shortcode, 1u32)),
            );
            proof {
                let i = choose|i: int|
                    0 <= i < store@.len() && (#[trigger] store@[i]).shortcode == code
                        && get_clip_outcome(store@[i], given, res);
                assert(submit_case(store@[i], given, out));
            }
            out
        },
        Err(ServiceError::NotFound) => (
            Response { status: 404, page: Page::ErrorText("clip not found".to_owned()) },
            None,
        ),
        Err(ServiceError::PermissionError(_)) => {
            let out = (
                Response { status: 200, page: Page::NeedPassword(PasswordRequired::new(shortcode)) },
                None,
            );
            proof {
                let i = choose|i: int|
                    0 <= i < store@.len() && (#[trigger] store@[i]).shortcode == code
                        && get_clip_outcome(store@[i], given, res);
                assert(submit_case(store@[i], given, out));
            }
            out
        },
        Err(_) => {
            let out = (
                Response { status: 500, page: Page::ErrorText("server error".to_owned()) },
                None,
            );
            proof {
                let i = choose|i: int|
                    0 <= i < store@.len() && (#[trigger] store@[i]).shortcode == code
                        && get_clip_outcome(store@[i], given, res);
                assert(submit_case(store@[i], given, out));
            }
            out
        },
    }
}

fn raw_clip_page(shortcode: ShortCode, cookie_password: &Option<String>, store: &MemoryStore) -> (r:
    (Response, Option<(ShortCode, u32)>))
    ensures
        raw_outcome(store@, shortcode@, opt_view(*cookie_password), r),
{
    let ghost code = shortcode@;
    let password = match cookie_password {
        Some(s) => match Password::new(s.clone()) {
            Ok(p) => p,
            Err(_) => {
                proof {
                    assert(false);
                }
                Password::default()
            },
        },
        None => Password::default(),
    };
    let ghost given = password@;
    let res = get_clip(ask::GetClip { shortcode: shortcode.clone(), password }, store);
    match res {
        Ok(clip) => {
            let out = (
                Response { status: 200, page: Page::RawText(clip.content.into_inner()) },
                Some((shortcode, 1u32)),
            );
            proof {
                let i = choose|i: int|
                    0 <= i < store@.len() && (#[trigger] store@[i]).shortcode == code
                        && get_clip_outcome(store@[i], given, res);
                assert(raw_case(store@[i], given, out));
            }
            out
        },
        Err(ServiceError::NotFound) => (
            Response { status: 404, page: Page::ErrorText("404"
                .to_owned()) },
            None,
        ),
        Err(ServiceError::PermissionError(msg)) => {
            let out = (Response { status: 401, page: Page::RawText(msg) }, None);
            proof {
                let i = choose|i: int|
                    0 <= i < store@.len() && (#[trigger] store@[i]).shortcode == code
                        && get_clip_outcome(store@[i], given, res);
                assert(raw_case(store@[i], given, out));
            }
            out
        },
        Err(_) => {
            let out = (
                Response { status: 500, page: Page::ErrorText("server error".to_owned()) },
                None,
            );
            proof {
                let i = choose|i: int|
                    0 <= i < store@.len() && (#[trigger] store@[i]).shortcode == code
                        && get_clip_outcome(store@[i], given, res);
                assert(raw_case(store@[i], given, out));
            }
            out
        },
    }
}

/// Decide one request: the status and page to render, plus the hit that
/// the handler owes the aggregator (fire-and-forget, exactly one per
/// successful clip view). Clip creation goes through the service layer
/// directly and is not routed here.
pub fn respond(req: &Request, store: &MemoryStore) -> (r: (Response, Option<(ShortCode, u32)>))
    ensures
        req.method is Get && req.path@ == "/"@ ==> r.0.status == 200 && (r.0.page is HomePage)
            && r.1 is None,
        req.method is Get && is_raw_path(req.path@) ==> raw_outcome(
            store@,
            raw_code(req.path@),
            opt_view(req.cookie_password),
            r,
        ),
        req.method is Get && is_clip_path(req.path@) ==> view_page_outcome(
            store@,
            clip_code(req.path@),
            None::<Seq<char>>,
            r,
        ),
        req.method is Post && is_clip_path(req.path@) ==> submit_outcome(
            store@,
            clip_code(req.path@),
            opt_view(req.form_password),
            r,
        ),
        !(req.method is Get && (req.path@ == "/"@ || is_raw_path(req.path@) || is_clip_path(
            req.path@,
        ))) && !(req.method is Post && is_clip_path(req.path@)) ==> r.0.status == 404
            && r.1 is None,
{
    proof {
        reveal_strlit("/");
        reveal_strlit("/clip/raw/");
        reveal_strlit("/clip/");
    }
    let cs = chars_of(req.path.as_str());
    let is_get = match req.method {
        Method::Get => true,
        Method::Post => false,
    };
    if is_get && chars_eq_lit(&cs, "/") {
        return (Response { status: 200, page: Page::HomePage(Home {  }) }, None);
    }
    match strip_prefix_chars(&cs, "/clip/raw/") {
        Some(rest) => {
            if is_get {
                return raw_clip_page(ShortCode::from_chars(rest), &req.cookie_password, store);
            } else {
                return (
                    Response { status: 404, page: Page::ErrorText("404".to_owned()) },
                    None,
                );
            }
        },
        None => {},
    }
    match strip_prefix_chars(&cs, "/clip/") {
        Some(rest) => {
            let shortcode = ShortCode::from_chars(rest);
            if is_get {
                return view_clip_page(shortcode, store);
            } else {
                return submit_password_page(shortcode, &req.form_password, store);
            }
        },
        None => {},
    }
    (Response { status: 404, page: Page::ErrorText("404".to_owned()) }, None)
}

} // verus!
