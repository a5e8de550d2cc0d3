//! The account side of the site client: reading the site's answers, and
//! the request sequences for signing in, signing out and the watch list.
//!
//! The network itself is the caller's: every sequence says which request
//! to send next and is resumed with the reply, until it is done.

use vstd::prelude::*;
use crate::json::{
    at, check_bool, check_null, check_object, check_text, get, get_array, get_number, get_str,
    get_u64, is_bool, is_null, is_object, is_text, member, number_of, opt, or_text, str_of,
    take_field, u64_of, array_of, Json, JsonField, JsonNumber,
};
use crate::session::{cookie_header_spec, jar_get, xsrf_name, Jar, Session, User};
use crate::text::{chars_of, contains, decimal, lowercase, owned, push_decimal, seq_contains, to_lowercase, trim};

verus! {

// ---------------------------------------------------------------------------
// Reading answers
// ---------------------------------------------------------------------------

/// A text seen as a view, or nothing.
pub open spec fn text_view(s: Option<String>) -> Option<Seq<char>> {
    match s {
        Some(x) => Some(x@),
        None => None,
    }
}

/// Where the account record sits in an answer: under `user` after signing
/// in, sometimes under `data`, else at the top.
pub open spec fn user_record(v: Json) -> Option<Json> {
    if is_object(at(Some(v), "user"@)) {
        at(Some(v), "user"@)
    } else if is_object(at(Some(v), "data"@)) {
        at(Some(v), "data"@)
    } else {
        Some(v)
    }
}

pub open spec fn user_name_in(d: Option<Json>) -> Seq<char> {
    match or_text(
        str_of(at(d, "username"@)),
        or_text(str_of(at(d, "name"@)), str_of(at(d, "display_name"@))),
    ) {
        Some(s) => s,
        None => Seq::empty(),
    }
}

/// An answer holds an account when it names one or gives its id.
pub open spec fn has_user(v: Json) -> bool {
    let d = user_record(v);
    user_name_in(d).len() > 0 || u64_of(at(d, "id"@)) is Some
}

/// The account an answer describes.
pub open spec fn user_matches(u: User, v: Json) -> bool {
    let d = user_record(v);
    &&& u.id == match u64_of(at(d, "id"@)) {
        Some(n) => n,
        None => 0,
    }
    &&& u.name@ == user_name_in(d)
    &&& u.email@ == match str_of(at(d, "email"@)) {
        Some(e) => e,
        None => Seq::empty(),
    }
    &&& text_view(u.avatar) == or_text(str_of(at(d, "avatar"@)), str_of(at(d, "avatar_url"@)))
}

/// The error message of a refused request.
pub open spec fn err_msg_spec(v: Json) -> Seq<char> {
    match or_text(
        str_of(at(Some(v), "message"@)),
        or_text(str_of(at(Some(v), "error"@)), str_of(at(at(Some(v), "errors"@), "email"@))),
    ) {
        Some(m) => m,
        None => "Giriş başarısız"@,
    }
}

/// A message that reads like a failure.
pub open spec fn sounds_failed(m: Seq<char>) -> bool {
    let l = lowercase(m);
    seq_contains(l, "başarısız"@) || seq_contains(l, "fail"@) || seq_contains(l, "hata"@)
}

/// Whether an answer reports success: `success: true`, or else a record
/// with no error and no failure message.
pub open spec fn resp_ok_spec(v: Json) -> bool {
    let s = Some(v);
    is_bool(at(s, "success"@), true) || ((is_object(at(s, "user"@)) || is_object(at(s, "data"@))
        || u64_of(at(s, "id"@)) is Some) && is_null(at(s, "error"@)) && match str_of(
        at(s, "message"@),
    ) {
        Some(m) => !sounds_failed(m),
        None => true,
    })
}

fn first_text<'a>(a: Option<&'a String>, b: Option<&'a String>) -> (r: Option<&'a String>)
    ensures
        match r {
            Some(x) => or_text(text_view_ref(a), text_view_ref(b)) == Some(x@),
            None => or_text(text_view_ref(a), text_view_ref(b)) is None,
        },
{
    match a {
        Some(x) => Some(x),
        None => b,
    }
}

pub open spec fn text_view_ref(s: Option<&String>) -> Option<Seq<char>> {
    match s {
        Some(x) => Some(x@),
        None => None,
    }
}

/// Reads the account out of a sign-in answer.
pub fn parse_user(v: &Json) -> (r: Option<User>)
    ensures
        match r {
            Some(u) => has_user(*v) && user_matches(u, *v),
            None => !has_user(*v),
        },
{
    let top = Some(v);
    let d = if check_object(get(top, "user")) {
        get(top, "user")
    } else if check_object(get(top, "data")) {
        get(top, "data")
    } else {
        top
    };
    assert(opt(d) == user_record(*v));
    let n = first_text(
        get_str(get(d, "username")),
        first_text(get_str(get(d, "name")), get_str(get(d, "display_name"))),
    );
    let name = match n {
        Some(s) => s.clone(),
        None => String::new(),
    };
    let id = get_u64(get(d, "id"));
    if name.unicode_len() == 0 && id.is_none() {
        return None;
    }
    let email = match get_str(get(d, "email")) {
        Some(s) => s.clone(),
        None => String::new(),
    };
    let avatar = match first_text(get_str(get(d, "avatar")), get_str(get(d, "avatar_url"))) {
        Some(s) => Some(s.clone()),
        None => None,
    };
    Some(
        User {
            id: match id {
                Some(x) => x,
                None => 0,
            },
            name,
            email,
            avatar,
        },
    )
}

/// The message to show for a refused request.
pub fn err_msg(v: &Json) -> (r: String)
    ensures
        r@ == err_msg_spec(*v),
{
    let top = Some(v);
    let m = first_text(
        get_str(get(top, "message")),
        first_text(get_str(get(top, "error")), get_str(get(get(top, "errors"), "email"))),
    );
    match m {
        Some(s) => s.clone(),
        None => owned("Giriş başarısız"),
    }
}

fn message_sounds_failed(m: &String) -> (r: bool)
    ensures
        r == sounds_failed(m@),
{
    let l = to_lowercase(m.as_str());
    let lc = chars_of(l.as_str());
    let a = chars_of("başarısız");
    let b = chars_of("fail");
    let c = chars_of("hata");
    contains(lc.as_slice(), a.as_slice()) || contains(lc.as_slice(), b.as_slice()) || contains(
        lc.as_slice(),
        c.as_slice(),
    )
}

/// Whether an answer reports success.
pub fn resp_ok(v: &Json) -> (r: bool)
    ensures
        r == resp_ok_spec(*v),
{
    let top = Some(v);
    if check_bool(get(top, "success"), true) {
        return true;
    }
    let has_record = check_object(get(top, "user")) || check_object(get(top, "data"))
        || get_u64(get(top, "id")).is_some();
    let no_error = check_null(get(top, "error"));
    let message_ok = match get_str(get(top, "message")) {
        Some(m) => !message_sounds_failed(m),
        None => true,
    };
    has_record && no_error && message_ok
}

/// The list entries of a lists answer: `pagination.data`, else `data`,
/// else none.
pub open spec fn list_entries(v: Json) -> Seq<Json> {
    match array_of(at(at(Some(v), "pagination"@), "data"@)) {
        Some(a) => a,
        None => match array_of(at(Some(v), "data"@)) {
            Some(a) => a,
            None => Seq::empty(),
        },
    }
}

/// The first entry named "watchlist".
pub open spec fn first_watchlist(items: Seq<Json>) -> Option<Json>
    decreases items.len(),
{
    if items.len() == 0 {
        None
    } else if is_text(at(Some(items[0]), "name"@), "watchlist"@) {
        Some(items[0])
    } else {
        first_watchlist(items.drop_first())
    }
}

/// The watch list id an answer gives.
pub open spec fn watchlist_id_spec(v: Json) -> Option<u64> {
    match first_watchlist(list_entries(v)) {
        Some(w) => u64_of(at(Some(w), "id"@)),
        None => None,
    }
}

/// Finds the user's watch list in a lists answer.
///
/// Fails with "Watchlist bulunamadı" when no entry is named "watchlist" or
/// the first such entry has no usable id.
pub fn watchlist_id_from(v: &Json) -> (r: Result<u64, String>)
    ensures
        match r {
            Ok(id) => watchlist_id_spec(*v) == Some(id),
            Err(e) => watchlist_id_spec(*v) is None && e@ == "Watchlist bulunamadı"@,
        },
{
    let top = Some(v);
    let items: &[Json] = match get_array(get(get(top, "pagination"), "data")) {
        Some(a) => a.as_slice(),
        None => match get_array(get(top, "data")) {
            Some(a) => a.as_slice(),
            None => &[],
        },
    };
    assert(items@ =~= list_entries(*v));
    let mut i: usize = 0;
    assert(items@.skip(0) =~= items@);
    while i < items.len()
        invariant
            i <= items@.len(),
            items@ == list_entries(*v),
            first_watchlist(items@) == first_watchlist(items@.skip(i as int)),
        decreases items@.len() - i,
    {
        assert(items@.skip(i as int).drop_first() =~= items@.skip(i + 1));
        assert(items@.skip(i as int)[0] == items@[i as int]);
        if check_text(get(Some(&items[i]), "name"), "watchlist") {
            return match get_u64(get(Some(&items[i]), "id")) {
                Some(id) => Ok(id),
                None => Err(owned("Watchlist bulunamadı")),
            };
        }
        i = i + 1;
    }
    Err(owned("Watchlist bulunamadı"))
}

// ---------------------------------------------------------------------------
// Requests and replies
// ---------------------------------------------------------------------------

/// A request to the site. `path` is below the site root. Site API requests
/// carry the session cookies, the XSRF header and the AJAX markers; the
/// warm-up request of signing in carries nothing.
pub struct Request {
    pub post: bool,
    pub path: String,
    pub with_session: bool,
    pub cookie: String,
    pub xsrf: String,
    pub body: Option<Json>,
    pub timeout_secs: Option<u64>,
}

/// What came back for a request: a transport failure, or an answer with
/// its status, its `Set-Cookie` headers and its body read as JSON.
pub enum Reply {
    Failed(String),
    Answered { status: u16, set_cookies: Vec<String>, body: Result<Json, String> },
}

/// The next thing a request sequence wants.
pub enum Step<T> {
    Send(Request),
    Done(T),
}

/// The XSRF cookie, or nothing.
pub open spec fn xsrf_text(j: Jar) -> Seq<char> {
    match jar_get(j, xsrf_name()) {
        Some(v) => v,
        None => Seq::empty(),
    }
}

/// `req` is a site API request of the session with the jar `j`.
pub open spec fn is_api_request(
    req: Request,
    j: Jar,
    post: bool,
    path: Seq<char>,
    timeout: u64,
) -> bool {
    &&& req.post == post
    &&& req.path@ == path
    &&& req.with_session
    &&& req.cookie@ == cookie_header_spec(j)
    &&& req.xsrf@ == xsrf_text(j)
    &&& req.timeout_secs == Some(timeout)
}

pub fn api_request(s: &Session, post: bool, path: String, body: Option<Json>, timeout: u64) -> (r:
    Request)
    ensures
        is_api_request(r, s.jar(), post, path@, timeout),
        r.body == body,
{
    Request {
        post,
        path,
        with_session: true,
        cookie: s.cookie_header(),
        xsrf: s.xsrf_or_empty(),
        body,
        timeout_secs: Some(timeout),
    }
}

/// The body that adds or removes a title on a list.
pub open spec fn is_list_item_body(b: Json, title_id: u64) -> bool {
    &&& b matches Json::Object(fs)
    &&& fs@.len() == 2
    &&& fs@[0].key@ == "itemId"@
    &&& fs@[0].value == Json::Uint(title_id)
    &&& fs@[1].key@ == "itemType"@
    &&& str_of(Some(fs@[1].value)) == Some("title"@)
}

fn list_item_body(title_id: u64) -> (b: Json)
    ensures
        is_list_item_body(b, title_id),
{
    let mut fs: Vec<JsonField> = Vec::new();
    fs.push(member("itemId", Json::Uint(title_id)));
    fs.push(member("itemType", Json::Str(owned("title"))));
    Json::Object(fs)
}

// ---------------------------------------------------------------------------
// The client
// ---------------------------------------------------------------------------

/// The site client's own state: the session.
pub struct Client {
    pub session: Session,
}

/// Adding a title to the watch list, or removing it.
#[derive(Clone, Copy, Debug, PartialEq, Eq, Structural)]
pub enum ListAction {
    Add,
    Remove,
}

pub open spec fn action_name(a: ListAction) -> Seq<char> {
    match a {
        ListAction::Add => "add"@,
        ListAction::Remove => "remove"@,
    }
}

/// The path that lists the user's lists.
pub open spec fn lists_path(uid: u64) -> Seq<char> {
    "/secure/user-profile/"@ + decimal(uid as nat) + "/lists?per_page=30"@
}

/// The path that changes a list.
pub open spec fn list_item_path(list_id: u64, a: ListAction) -> Seq<char> {
    "/secure/lists/"@ + decimal(list_id as nat) + "/"@ + action_name(a)
}

/// Where a watch list change stands.
#[derive(Clone, Copy, Debug, PartialEq, Eq, Structural)]
pub enum FavStage {
    /// Waiting for the user's lists.
    Lists,
    /// Waiting for the list change to be confirmed.
    Change,
    /// Finished.
    Over,
}

/// Adding a title to, or removing it from, the user's watch list: first
/// the user's lists are read to find the watch list, then the change is
/// posted.
pub struct FavFlow {
    pub action: ListAction,
    pub title_id: u64,
    pub stage: FavStage,
}

impl Client {
    /// The stored account, if signed in.
    pub fn session_user(&self) -> (r: Option<User>)
        ensures
            r == self.session.user,
    {
        match &self.session.user {
            Some(u) => Some(u.duplicate()),
            None => None,
        }
    }

    /// Whether an account is stored.
    pub fn is_logged_in(&self) -> (r: bool)
        ensures
            r == self.session.user is Some,
    {
        self.session_user().is_some()
    }

    /// Starts a watch list change.
    fn fav_start(&self, title_id: u64, action: ListAction) -> (r: (FavFlow, Step<Result<(), String>>))
        ensures
            r.0.action == action,
            r.0.title_id == title_id,
            match r.1 {
                Step::Done(res) => {
                    &&& r.0.stage == FavStage::Over
                    &&& !fav_can_start(self.session)
                    &&& res matches Err(e) && e@ == "Giriş yapılmamış"@
                },
                Step::Send(req) => r.0.stage == FavStage::Lists && fav_can_start(self.session)
                    && is_api_request(
                    req,
                    self.session.jar(),
                    false,
                    lists_path(self.session.user->0.id),
                    20,
                ) && req.body is None,
            },
            (r.1 is Done) == !fav_can_start(self.session),
    {
        let mut flow = FavFlow { action, title_id, stage: FavStage::Over };
        let uid = match &self.session.user {
            Some(u) => if u.id > 0 {
                u.id
            } else {
                return (flow, Step::Done(Err(owned("Giriş yapılmamış"))));
            },
            None => return (flow, Step::Done(Err(owned("Giriş yapılmamış")))),
        };
        let cookie = self.session.cookie_header();
        if cookie.unicode_len() == 0 {
            return (flow, Step::Done(Err(owned("Giriş yapılmamış"))));
        }
        let mut path = owned("/secure/user-profile/");
        push_decimal(&mut path, uid);
        path.append("/lists?per_page=30");
        flow.stage = FavStage::Lists;
        (flow, Step::Send(api_request(&self.session, false, path, None, 20)))
    }

    /// Adds a title to the user's watch list.
    pub fn fav_add(&self, title_id: u64) -> (r: (FavFlow, Step<Result<(), String>>))
        ensures
            r.0.action == ListAction::Add,
            r.0.title_id == title_id,
            (r.1 is Done) == !fav_can_start(self.session),
            r.1 matches Step::Done(res) ==> res matches Err(e) && e@ == "Giriş yapılmamış"@,
            r.1 matches Step::Send(req) ==> r.0.stage == FavStage::Lists && is_api_request(
                req,
                self.session.jar(),
                false,
                lists_path(self.session.user->0.id),
                20,
            ) && req.body is None,
    {
        self.fav_start(title_id, ListAction::Add)
    }

    /// Removes a title from the user's watch list.
    pub fn fav_remove(&self, title_id: u64) -> (r: (FavFlow, Step<Result<(), String>>))
        ensures
            r.0.action == ListAction::Remove,
            r.0.title_id == title_id,
            (r.1 is Done) == !fav_can_start(self.session),
            r.1 matches Step::Done(res) ==> res matches Err(e) && e@ == "Giriş yapılmamış"@,
            r.1 matches Step::Send(req) ==> r.0.stage == FavStage::Lists && is_api_request(
                req,
                self.session.jar(),
                false,
                lists_path(self.session.user->0.id),
                20,
            ) && req.body is None,
    {
        self.fav_start(title_id, ListAction::Remove)
    }
}

/// A watch list change can start: an account with an id is stored and the
/// session has cookies.
pub open spec fn fav_can_start(s: Session) -> bool {
    s.user is Some && s.user->0.id > 0 && cookie_header_spec(s.jar()).len() > 0
}

/// `r` posts the change of `title_id` on the list `list_id`.
pub open spec fn sends_list_change(
    r: Step<Result<(), String>>,
    j: Jar,
    list_id: u64,
    action: ListAction,
    title_id: u64,
) -> bool {
    match r {
        Step::Send(req) => is_api_request(req, j, true, list_item_path(list_id, action), 15)
            && match req.body {
            Some(b) => is_list_item_body(b, title_id),
            None => false,
        },
        Step::Done(_) => false,
    }
}

impl FavFlow {
    /// Takes the reply to the last request and says what comes next.
    ///
    /// For the lists: a failed transport, a 401 status ("Oturum geçersiz
    /// (tekrar giriş yap)"), an unreadable body or a missing watch list end
    /// the change with that error; otherwise the change is posted. For the
    /// change: the answer decides, as `resp_ok` reads it.
    pub fn resume(&mut self, client: &Client, reply: Reply) -> (r: Step<Result<(), String>>)
        requires
            old(self).stage != FavStage::Over,
        ensures
            final(self).action == old(self).action,
            final(self).title_id == old(self).title_id,
            (r is Done) == (final(self).stage == FavStage::Over),
            old(self).stage == FavStage::Lists ==> match reply {
                Reply::Failed(e) => r == Step::<Result<(), String>>::Done(Err(e)),
                Reply::Answered { status, set_cookies, body } => if status == 401 {
                    r matches Step::Done(Err(m)) && m@ == "Oturum geçersiz (tekrar giriş yap)"@
                } else {
                    match body {
                        Err(e) => r == Step::<Result<(), String>>::Done(Err(e)),
                        Ok(v) => match watchlist_id_spec(v) {
                            None => r matches Step::Done(Err(m)) && m@ == "Watchlist bulunamadı"@,
                            Some(id) => final(self).stage == FavStage::Change
                                && sends_list_change(
                                r,
                                client.session.jar(),
                                id,
                                old(self).action,
                                old(self).title_id,
                            ),
                        },
                    }
                },
            },
            old(self).stage == FavStage::Change ==> match reply {
                Reply::Failed(e) => r == Step::<Result<(), String>>::Done(Err(e)),
                Reply::Answered { status, set_cookies, body } => match body {
                    Err(e) => r == Step::<Result<(), String>>::Done(Err(e)),
                    Ok(v) => if resp_ok_spec(v) {
                        r == Step::<Result<(), String>>::Done(Ok(()))
                    } else {
                        r matches Step::Done(Err(m)) && m@ == err_msg_spec(v)
                    },
                },
            },
    {
        let stage = self.stage;
        self.stage = FavStage::Over;
        match reply {
            Reply::Failed(e) => Step::Done(Err(e)),
            Reply::Answered { status, set_cookies, body } => {
                if stage == FavStage::Lists {
                    if status == 401 {
                        return Step::Done(Err(owned("Oturum geçersiz (tekrar giriş yap)")));
                    }
                    let v = match body {
                        Err(e) => return Step::Done(Err(e)),
                        Ok(v) => v,
                    };
                    match watchlist_id_from(&v) {
                        Err(e) => Step::Done(Err(e)),
                        Ok(id) => {
                            let mut path = owned("/secure/lists/");
                            push_decimal(&mut path, id);
                            path.append("/");
                            match self.action {
                                ListAction::Add => path.append("add"),
                                ListAction::Remove => path.append("remove"),
                            }
                            self.stage = FavStage::Change;
                            let b = list_item_body(self.title_id);
                            Step::Send(api_request(&client.session, true, path, Some(b), 15))
                        },
                    }
                } else {
                    match body {
                        Err(e) => Step::Done(Err(e)),
                        Ok(v) => if resp_ok(&v) {
                            Step::Done(Ok(()))
                        } else {
                            Step::Done(Err(err_msg(&v)))
                        },
                    }
                }
            },
        }
    }
}

// ---------------------------------------------------------------------------
// Signing in and out
// ---------------------------------------------------------------------------

/// Login attempts before giving up.
pub const LOGIN_ROUNDS: u64 = 4;

/// Seconds to wait before retrying after a token complaint.
pub const LOGIN_RETRY_PAUSE_SECS: u64 = 2;

/// A refusal that only means the XSRF cookie was stale: the site has just
/// set a fresh one, so the attempt is worth repeating.
/// What the sign-in form hands over: the e-mail address without the
/// spaces around it, and the password as typed; both are required.
pub open spec fn login_form_spec(email: Seq<char>, password: Seq<char>) -> Result<(Seq<char>, Seq<char>), Seq<char>> {
    if trim(email).len() == 0 || password.len() == 0 {
        Err("E-posta ve şifre gerekli"@)
    } else {
        Ok((trim(email), password))
    }
}

pub fn login_form(email: &str, password: &str) -> (r: Result<(String, String), String>)
    ensures
        match r {
            Ok((e, p)) => login_form_spec(email@, password@) == Ok::<(Seq<char>, Seq<char>), Seq<char>>((e@, p@)),
            Err(m) => login_form_spec(email@, password@) == Err::<(Seq<char>, Seq<char>), Seq<char>>(m@),
        },
{
    let e = crate::text::trim_str(email);
    if e.unicode_len() == 0 || password.unicode_len() == 0 {
        return Err(owned("E-posta ve şifre gerekli"));
    }
    Ok((e, owned(password)))
}

pub open spec fn is_token_complaint(msg: Seq<char>) -> bool {
    let m = lowercase(msg);
    seq_contains(m, "csrf"@) || seq_contains(m, "token"@) || seq_contains(m, "419"@)
}

/// The sign-in body.
pub open spec fn is_login_body(b: Json, email: Seq<char>, password: Seq<char>) -> bool {
    &&& b matches Json::Object(fs)
    &&& fs@.len() == 2
    &&& fs@[0].key@ == "email"@
    &&& str_of(Some(fs@[0].value)) == Some(email)
    &&& fs@[1].key@ == "password"@
    &&& str_of(Some(fs@[1].value)) == Some(password)
}

/// `req` is the sign-in attempt for the jar `j`.
pub open spec fn is_login_request(req: Request, j: Jar, email: Seq<char>, password: Seq<char>) -> bool {
    &&& is_api_request(req, j, true, "/secure/auth/login"@, 20)
    &&& match req.body {
        Some(b) => is_login_body(b, email, password),
        None => false,
    }
}

/// The warm-up request that collects cookies from the home page.
pub open spec fn is_warm_up(req: Request) -> bool {
    &&& !req.post
    &&& req.path@ == "/"@
    &&& !req.with_session
    &&& req.body is None
    &&& req.timeout_secs is None
}

/// Where signing in stands.
#[derive(Clone, Copy, Debug, PartialEq, Eq, Structural)]
pub enum LoginStage {
    WarmUp,
    Attempt,
    Over,
}

/// Signing in with e-mail and password. The site does not always hand out
/// its XSRF cookie; the first attempt then fails with a token complaint and
/// sets the cookie, and the next attempt goes through. Up to four attempts
/// are made, two seconds apart.
pub struct LoginFlow {
    pub email: String,
    pub password: String,
    pub attempt: u64,
    pub stage: LoginStage,
    pub last_err: String,
}

/// What signing in wants next, after waiting `pause_secs`.
pub struct LoginStep {
    pub pause_secs: u64,
    pub step: Step<Result<User, String>>,
}

fn login_body(email: &String, password: &String) -> (b: Json)
    ensures
        is_login_body(b, email@, password@),
{
    let mut fs: Vec<JsonField> = Vec::new();
    fs.push(member("email", Json::Str(email.clone())));
    fs.push(member("password", Json::Str(password.clone())));
    Json::Object(fs)
}

fn is_token_message(m: &String) -> (r: bool)
    ensures
        r == is_token_complaint(m@),
{
    let l = to_lowercase(m.as_str());
    let lc = chars_of(l.as_str());
    let a = chars_of("csrf");
    let b = chars_of("token");
    let c = chars_of("419");
    contains(lc.as_slice(), a.as_slice()) || contains(lc.as_slice(), b.as_slice()) || contains(
        lc.as_slice(),
        c.as_slice(),
    )
}

impl Client {
    /// Starts signing in: the warm-up request comes first.
    pub fn login(&self, email: &str, password: &str) -> (r: (LoginFlow, LoginStep))
        ensures
            r.0.email@ == email@,
            r.0.password@ == password@,
            r.0.stage == LoginStage::WarmUp,
            r.0.attempt == 0,
            r.0.last_err@ == "Giriş başarısız"@,
            r.1.pause_secs == 0,
            r.1.step matches Step::Send(req) && is_warm_up(req),
    {
        let flow = LoginFlow {
            email: owned(email),
            password: owned(password),
            attempt: 0,
            stage: LoginStage::WarmUp,
            last_err: owned("Giriş başarısız"),
        };
        let req = Request {
            post: false,
            path: owned("/"),
            with_session: false,
            cookie: String::new(),
            xsrf: String::new(),
            body: None,
            timeout_secs: None,
        };
        (flow, LoginStep { pause_secs: 0, step: Step::Send(req) })
    }

    /// The request that signs out, when the session has cookies.
    pub fn logout_request(&self) -> (r: Option<Request>)
        ensures
            match r {
                Some(req) => cookie_header_spec(self.session.jar()).len() > 0 && is_api_request(
                    req,
                    self.session.jar(),
                    true,
                    "/secure/auth/logout"@,
                    15,
                ) && req.body is None,
                None => cookie_header_spec(self.session.jar()).len() == 0,
            },
    {
        let cookie = self.session.cookie_header();
        if cookie.unicode_len() == 0 {
            return None;
        }
        Some(api_request(&self.session, true, owned("/secure/auth/logout"), None, 15))
    }

    /// Signing out: whatever the site answered, the session is emptied.
    pub fn logout(&mut self)
        ensures
            final(self).session.jar().len() == 0,
            final(self).session.user is None,
            final(self).session.wf(),
    {
        self.session = Session::empty();
    }
}

impl LoginFlow {
    fn attempt_request(&self, session: &Session) -> (r: Request)
        ensures
            is_login_request(r, session.jar(), self.email@, self.password@),
    {
        let b = login_body(&self.email, &self.password);
        api_request(session, true, owned("/secure/auth/login"), Some(b), 20)
    }

    /// Takes the reply to the last request and says what comes next.
    ///
    /// After the warm-up, whatever its outcome, the first attempt is sent
    /// with the cookies gathered so far. After an attempt the cookies it set
    /// are kept first; then a failed transport or an unreadable body ends
    /// signing in with that error; a successful answer stores and returns
    /// the account ("Kullanıcı bilgisi okunamadı" if it holds none); a token
    /// complaint is retried after two seconds while attempts remain, and
    /// ends with the complaint after the last; any other refusal ends with
    /// its message.
    pub fn resume(&mut self, session: &mut Session, reply: Reply) -> (r: LoginStep)
        requires
            old(self).stage != LoginStage::Over,
            old(self).attempt < LOGIN_ROUNDS,
            old(session).wf(),
        ensures
            final(session).wf(),
            final(self).email == old(self).email,
            final(self).password == old(self).password,
            final(self).attempt < LOGIN_ROUNDS,
            (r.step is Done) == (final(self).stage == LoginStage::Over),
            old(self).stage == LoginStage::WarmUp ==> {
                &&& final(session).user == old(session).user
                &&& final(session).jar() == match reply {
                    Reply::Answered { status, set_cookies, body } => crate::session::apply_set_cookies(
                        old(session).jar(),
                        set_cookies@.map_values(|c: String| c@),
                    ),
                    Reply::Failed(_) => old(session).jar(),
                }
                &&& final(self).stage == LoginStage::Attempt
                &&& final(self).attempt == 0
                &&& r.pause_secs == 0
                &&& r.step matches Step::Send(req) && is_login_request(
                    req,
                    final(session).jar(),
                    old(self).email@,
                    old(self).password@,
                )
            },
            old(self).stage == LoginStage::Attempt ==> match reply {
                Reply::Failed(e) => {
                    &&& *final(session) == *old(session)
                    &&& r.pause_secs == 0
                    &&& r.step == Step::<Result<User, String>>::Done(Err(e))
                },
                Reply::Answered { status, set_cookies, body } => {
                    &&& final(session).jar() == crate::session::apply_set_cookies(
                        old(session).jar(),
                        set_cookies@.map_values(|c: String| c@),
                    )
                    &&& match body {
                        Err(e) => {
                            &&& final(session).user == old(session).user
                            &&& r.pause_secs == 0
                            &&& r.step == Step::<Result<User, String>>::Done(Err(e))
                        },
                        Ok(v) => if resp_ok_spec(v) {
                            &&& r.pause_secs == 0
                            &&& if has_user(v) {
                                &&& final(session).user is Some
                                &&& user_matches(final(session).user->0, v)
                                &&& r.step == Step::<Result<User, String>>::Done(
                                    Ok(final(session).user->0),
                                )
                            } else {
                                &&& final(session).user == old(session).user
                                &&& r.step matches Step::Done(Err(m)) && m@
                                    == "Kullanıcı bilgisi okunamadı"@
                            }
                        } else if is_token_complaint(err_msg_spec(v)) {
                            &&& final(session).user == old(session).user
                            &&& r.pause_secs == LOGIN_RETRY_PAUSE_SECS
                            &&& final(self).last_err@ == err_msg_spec(v)
                            &&& if old(self).attempt + 1 < LOGIN_ROUNDS {
                                &&& final(self).attempt == old(self).attempt + 1
                                &&& r.step matches Step::Send(req) && is_login_request(
                                    req,
                                    final(session).jar(),
                                    old(self).email@,
                                    old(self).password@,
                                )
                            } else {
                                r.step matches Step::Done(Err(m)) && m@ == err_msg_spec(v)
                            }
                        } else {
                            &&& final(session).user == old(session).user
                            &&& r.pause_secs == 0
                            &&& r.step matches Step::Done(Err(m)) && m@ == err_msg_spec(v)
                        },
                    }
                },
            },
    {
        match self.stage {
            LoginStage::WarmUp => {
                if let Reply::Answered { status, set_cookies, body } = reply {
                    session.store_from(set_cookies.as_slice());
                }
                self.stage = LoginStage::Attempt;
                self.attempt = 0;
                let req = self.attempt_request(session);
                LoginStep { pause_secs: 0, step: Step::Send(req) }
            },
            _ => {
                self.stage = LoginStage::Over;
                match reply {
                    Reply::Failed(e) => LoginStep { pause_secs: 0, step: Step::Done(Err(e)) },
                    Reply::Answered { status, set_cookies, body } => {
                        session.store_from(set_cookies.as_slice());
                        let v = match body {
                            Err(e) => return LoginStep { pause_secs: 0, step: Step::Done(Err(e)) },
                            Ok(v) => v,
                        };
                        if resp_ok(&v) {
                            match parse_user(&v) {
                                None => LoginStep {
                                    pause_secs: 0,
                                    step: Step::Done(Err(owned("Kullanıcı bilgisi okunamadı"))),
                                },
                                Some(u) => {
                                    let copy = u.duplicate();
                                    session.user = Some(u);
                                    LoginStep { pause_secs: 0, step: Step::Done(Ok(copy)) }
                                },
                            }
                        } else {
                            let msg = err_msg(&v);
                            if is_token_message(&msg) {
                                self.last_err = msg;
                                if self.attempt + 1 < LOGIN_ROUNDS {
                                    self.attempt = self.attempt + 1;
                                    self.stage = LoginStage::Attempt;
                                    let req = self.attempt_request(session);
                                    LoginStep {
                                        pause_secs: LOGIN_RETRY_PAUSE_SECS,
                                        step: Step::Send(req),
                                    }
                                } else {
                                    LoginStep {
                                        pause_secs: LOGIN_RETRY_PAUSE_SECS,
                                        step: Step::Done(Err(self.last_err.clone())),
                                    }
                                }
                            } else {
                                LoginStep { pause_secs: 0, step: Step::Done(Err(msg)) }
                            }
                        }
                    },
                }
            },
        }
    }
}


// ---------------------------------------------------------------------------
// Reading pages of the account, positions and history records
// ---------------------------------------------------------------------------

/// A request of an API page below `/secure/` with the session, when the
/// session has cookies.
pub open spec fn authed_get_spec(r: Result<Request, String>, j: Jar, path: Seq<char>) -> bool {
    match r {
        Ok(req) => cookie_header_spec(j).len() > 0 && is_api_request(
            req,
            j,
            false,
            "/secure/"@ + path,
            20,
        ) && req.body is None,
        Err(e) => cookie_header_spec(j).len() == 0 && e@ == "Giriş yapılmamış"@,
    }
}

/// The body of an answer to a signed-in request: an unauthorised status
/// means the session expired.
pub open spec fn authed_body_spec(reply: Reply, r: Result<Json, String>) -> bool {
    match reply {
        Reply::Failed(e) => r == Err::<Json, String>(e),
        Reply::Answered { status, set_cookies, body } => if status == 401 {
            r matches Err(m) && m@ == "Oturum geçersiz (tekrar giriş yap)"@
        } else {
            r == body
        },
    }
}

/// The JSON body of a signed-in request's answer.
pub fn authed_body(reply: Reply) -> (r: Result<Json, String>)
    ensures
        authed_body_spec(reply, r),
{
    match reply {
        Reply::Failed(e) => Err(e),
        Reply::Answered { status, set_cookies, body } => if status == 401 {
            Err(owned("Oturum geçersiz (tekrar giriş yap)"))
        } else {
            body
        },
    }
}

/// The items of the first list named "watchlist", or the refusal.
pub open spec fn watchlist_items_spec(v: Json) -> Option<Seq<Json>> {
    match first_watchlist(list_entries(v)) {
        Some(w) => Some(
            match array_of(at(Some(w), "items"@)) {
                Some(a) => a,
                None => Seq::empty(),
            },
        ),
        None => None,
    }
}

/// The entries of the user's watch list in a lists answer, as the site
/// sends them; fails with "Watchlist bulunamadı" without a watch list.
pub fn watchlist_items(v: Json) -> (r: Result<Vec<Json>, String>)
    ensures
        match r {
            Ok(items) => watchlist_items_spec(v) == Some(items@),
            Err(e) => watchlist_items_spec(v) is None && e@ == "Watchlist bulunamadı"@,
        },
{
    let ghost v0 = v;
    let from_pagination = get_array(get(get(Some(&v), "pagination"), "data")).is_some();
    let lists = if from_pagination {
        take_field(take_field(Some(v), "pagination"), "data")
    } else {
        take_field(Some(v), "data")
    };
    let mut entries = match lists {
        Some(Json::Array(a)) => a,
        _ => Vec::new(),
    };
    let ghost all = entries@;
    assert(all =~= list_entries(v0));
    let ghost mut done: int = 0;
    assert(all.skip(0) =~= all);
    while entries.len() > 0
        invariant
            0 <= done <= all.len(),
            all == list_entries(v0),
            v0 == v,
            entries@ == all.skip(done),
            first_watchlist(all) == first_watchlist(all.skip(done)),
        decreases entries@.len(),
    {
        let x = entries.remove(0);
        assert(x == all[done]);
        assert(all.skip(done).drop_first() =~= all.skip(done + 1));
        if check_text(get(Some(&x), "name"), "watchlist") {
            assert(all.skip(done)[0] == x);
            assert(first_watchlist(all.skip(done)) == Some(x));
            return match take_field(Some(x), "items") {
                Some(Json::Array(items)) => Ok(items),
                _ => Ok(Vec::new()),
            };
        }
        proof {
            done = done + 1;
        }
    }
    Err(owned("Watchlist bulunamadı"))
}

/// The last watched position the server answered with: `time`, else
/// `data.time`, in milliseconds.
pub open spec fn remote_time_spec(v: Json) -> Option<JsonNumber> {
    match number_of(at(Some(v), "time"@)) {
        Some(n) => Some(n),
        None => number_of(at(at(Some(v), "data"@), "time"@)),
    }
}

pub fn remote_time(v: &Json) -> (r: Option<JsonNumber>)
    ensures
        r == remote_time_spec(*v),
{
    match get_number(get(Some(v), "time")) {
        Some(n) => Some(n),
        None => get_number(get(get(Some(v), "data"), "time")),
    }
}

/// A server position is used from five seconds on.
pub fn resume_ms(ms: u64) -> (r: Option<u64>)
    ensures
        r == if ms > 5000 {
            Some(ms)
        } else {
            None::<u64>
        },
{
    if ms > 5000 {
        Some(ms)
    } else {
        None
    }
}

/// The fields naming an episode of a title.
pub open spec fn is_episode_body(b: Json, title_id: u64, season: u64, episode: u64, time: Option<u64>) -> bool {
    &&& b matches Json::Object(fs)
    &&& fs@.len() == if time is Some {
        4int
    } else {
        3int
    }
    &&& fs@[0].key@ == "titleId"@ && fs@[0].value == Json::Uint(title_id)
    &&& fs@[1].key@ == "seasonNumber"@ && fs@[1].value == Json::Uint(season)
    &&& fs@[2].key@ == "episodeNumber"@ && fs@[2].value == Json::Uint(episode)
    &&& time matches Some(t) ==> fs@[3].key@ == "time"@ && fs@[3].value == Json::Uint(t)
}

fn episode_body(title_id: u64, season: u64, episode: u64, time: Option<u64>) -> (b: Json)
    ensures
        is_episode_body(b, title_id, season, episode, time),
{
    let mut fs: Vec<JsonField> = Vec::new();
    fs.push(member("titleId", Json::Uint(title_id)));
    fs.push(member("seasonNumber", Json::Uint(season)));
    fs.push(member("episodeNumber", Json::Uint(episode)));
    if let Some(t) = time {
        fs.push(member("time", Json::Uint(t)));
    }
    Json::Object(fs)
}

/// The history record the site keeps for a title being played.
pub open spec fn is_put_title_body(b: Json, id: u64, name: Seq<char>, date_ms: u64, first_video: Option<Json>) -> bool {
    &&& b matches Json::Object(fs)
    &&& fs@.len() == 5
    &&& fs@[0].key@ == "id"@ && fs@[0].value == Json::Uint(id)
    &&& fs@[1].key@ == "name"@ && str_of(Some(fs@[1].value)) == Some(name)
    &&& fs@[2].key@ == "date"@ && fs@[2].value == Json::Uint(date_ms)
    &&& fs@[3].key@ == "videos"@ && (fs@[3].value matches Json::Array(vs) && vs@ == match first_video {
        Some(v) => seq![v],
        None => Seq::<Json>::empty(),
    })
    &&& fs@[4].key@ == "episodes"@ && (fs@[4].value matches Json::Array(es) && es@.len() == 0)
}

/// The pages probed after signing in, to see what the session reaches.
pub open spec fn probe_paths_spec() -> Seq<Seq<char>> {
    seq![
        "auth/social-profiles"@,
        "lists?per_page=1"@,
        "lists/liked"@,
        "last-episodes?page=1"@,
        "list-includes?itemId=1"@,
    ]
}

impl Client {
    /// The request for an API page below `/secure/`; fails with "Giriş
    /// yapılmamış" when the session has no cookies.
    pub fn authed_get(&self, path: &str) -> (r: Result<Request, String>)
        ensures
            authed_get_spec(r, self.session.jar(), path@),
    {
        let cookie = self.session.cookie_header();
        if cookie.unicode_len() == 0 {
            return Err(owned("Giriş yapılmamış"));
        }
        let mut p = owned("/secure/");
        p.append(path);
        Ok(api_request(&self.session, false, p, None, 20))
    }

    /// The request for the user's lists, which hold the watch list; fails
    /// with "Giriş yapılmamış" without an account id or cookies.
    pub fn watchlist_request(&self) -> (r: Result<Request, String>)
        ensures
            match r {
                Ok(req) => fav_can_start(self.session) && is_api_request(
                    req,
                    self.session.jar(),
                    false,
                    lists_path(self.session.user->0.id),
                    20,
                ) && req.body is None,
                Err(e) => !fav_can_start(self.session) && e@ == "Giriş yapılmamış"@,
            },
    {
        let (flow, step) = self.fav_start(0, ListAction::Add);
        match step {
            Step::Send(req) => Ok(req),
            Step::Done(res) => match res {
                Err(e) => Err(e),
                Ok(()) => Err(owned("Giriş yapılmamış")),
            },
        }
    }

    /// Asks the server where the user stopped in an episode; only when
    /// signed in.
    pub fn remote_pos_request(&self, title_id: u64, season: u64, episode: u64) -> (r: Option<Request>)
        ensures
            match r {
                Some(req) => self.session.user is Some && is_api_request(
                    req,
                    self.session.jar(),
                    true,
                    "/secure/history/get-current-time"@,
                    15,
                ) && match req.body {
                    Some(b) => is_episode_body(b, title_id, season, episode, None),
                    None => false,
                },
                None => self.session.user is None,
            },
    {
        if !self.is_logged_in() {
            return None;
        }
        let b = episode_body(title_id, season, episode, None);
        Some(api_request(&self.session, true, owned("/secure/history/get-current-time"), Some(b), 15))
    }

    /// Tells the server where the user is in an episode; only when signed
    /// in and from ten seconds on.
    pub fn report_pos_request(&self, title_id: u64, season: u64, episode: u64, pos_ms: u64) -> (r:
        Option<Request>)
        ensures
            match r {
                Some(req) => self.session.user is Some && pos_ms >= 10000 && is_api_request(
                    req,
                    self.session.jar(),
                    true,
                    "/secure/history/report-current-time"@,
                    15,
                ) && match req.body {
                    Some(b) => is_episode_body(b, title_id, season, episode, Some(pos_ms)),
                    None => false,
                },
                None => self.session.user is None || pos_ms < 10000,
            },
    {
        if !self.is_logged_in() || pos_ms < 10000 {
            return None;
        }
        let b = episode_body(title_id, season, episode, Some(pos_ms));
        Some(
            api_request(
                &self.session,
                true,
                owned("/secure/history/report-current-time"),
                Some(b),
                15,
            ),
        )
    }

    /// Records on the server that a title is being played, with the first
    /// video of the episode opened; only when signed in.
    pub fn put_title_request(&self, id: u64, name: &str, date_ms: u64, first_video: Option<Json>) -> (r:
        Option<Request>)
        ensures
            match r {
                Some(req) => self.session.user is Some && is_api_request(
                    req,
                    self.session.jar(),
                    true,
                    "/secure/history/put-title"@,
                    15,
                ) && match req.body {
                    Some(b) => is_put_title_body(b, id, name@, date_ms, first_video),
                    None => false,
                },
                None => self.session.user is None,
            },
    {
        if !self.is_logged_in() {
            return None;
        }
        let mut videos: Vec<Json> = Vec::new();
        if let Some(v) = first_video {
            videos.push(v);
        }
        let mut fs: Vec<JsonField> = Vec::new();
        fs.push(member("id", Json::Uint(id)));
        fs.push(member("name", Json::Str(owned(name))));
        fs.push(member("date", Json::Uint(date_ms)));
        fs.push(member("videos", Json::Array(videos)));
        fs.push(member("episodes", Json::Array(Vec::new())));
        let b = Json::Object(fs);
        Some(api_request(&self.session, true, owned("/secure/history/put-title"), Some(b), 15))
    }

    /// Mirrors a favourite change to the site's watch list: added when the
    /// title was saved, removed otherwise; nothing without an account.
    pub fn fav_sync(&self, title_id: u64, saved: bool) -> (r: Option<(FavFlow, Step<Result<(), String>>)>)
        ensures
            match r {
                Some((flow, _)) => self.session.user is Some && flow.title_id == title_id
                    && flow.action == if saved {
                    ListAction::Add
                } else {
                    ListAction::Remove
                },
                None => self.session.user is None,
            },
    {
        if !self.is_logged_in() {
            return None;
        }
        Some(
            if saved {
                self.fav_add(title_id)
            } else {
                self.fav_remove(title_id)
            },
        )
    }

    /// The probe requests sent after signing in, with their paths; none
    /// without cookies.
    pub fn probe_requests(&self) -> (r: Vec<(&'static str, Request)>)
        ensures
            cookie_header_spec(self.session.jar()).len() == 0 ==> r@.len() == 0,
            cookie_header_spec(self.session.jar()).len() > 0 ==> {
                &&& r@.len() == probe_paths_spec().len()
                &&& forall|i: int|
                    0 <= i < r@.len() ==> (#[trigger] r@[i]).0@ == probe_paths_spec()[i]
                        && is_api_request(
                        r@[i].1,
                        self.session.jar(),
                        false,
                        "/secure/"@ + probe_paths_spec()[i],
                        15,
                    ) && r@[i].1.body is None
            },
    {
        let mut out: Vec<(&'static str, Request)> = Vec::new();
        let cookie = self.session.cookie_header();
        if cookie.unicode_len() == 0 {
            return out;
        }
        let paths = vec![
            "auth/social-profiles",
            "lists?per_page=1",
            "lists/liked",
            "last-episodes?page=1",
            "list-includes?itemId=1",
        ];
        assert(paths@.map_values(|p: &str| p@) =~= probe_paths_spec());
        let mut i: usize = 0;
        while i < paths.len()
            invariant
                paths@.map_values(|p: &str| p@) == probe_paths_spec(),
                i <= paths@.len(),
                out@.len() == i,
                forall|k: int|
                    0 <= k < i ==> (#[trigger] out@[k]).0@ == probe_paths_spec()[k]
                        && is_api_request(
                        out@[k].1,
                        self.session.jar(),
                        false,
                        "/secure/"@ + probe_paths_spec()[k],
                        15,
                    ) && out@[k].1.body is None,
            decreases paths@.len() - i,
        {
            let mut p = owned("/secure/");
            p.append(paths[i]);
            assert(paths@[i as int]@ == probe_paths_spec()[i as int]);
            out.push((paths[i], api_request(&self.session, false, p, None, 15)));
            i = i + 1;
        }
        out
    }
}

// ---------------------------------------------------------------------------
// Favourites
// ---------------------------------------------------------------------------

pub open spec fn has_id<T>(s: Seq<(u64, T)>, id: u64) -> bool {
    exists|i: int| 0 <= i < s.len() && #[trigger] s[i].0 == id
}

/// The site's watch list merged into the local favourites: every title not
/// saved yet goes to the front, in the order met.
pub open spec fn merge_favs_spec<T>(saved: Seq<(u64, T)>, incoming: Seq<(u64, T)>) -> Seq<(u64, T)>
    decreases incoming.len(),
{
    if incoming.len() == 0 {
        saved
    } else {
        let s = merge_favs_spec(saved, incoming.drop_last());
        if has_id(s, incoming.last().0) {
            s
        } else {
            seq![incoming.last()] + s
        }
    }
}

/// After merging, every title of the site's watch list is a favourite, and
/// every favourite kept its place at the end.
pub proof fn lemma_merge_favs_keeps<T>(saved: Seq<(u64, T)>, incoming: Seq<(u64, T)>)
    ensures
        forall|i: int| 0 <= i < incoming.len() ==> has_id(merge_favs_spec(saved, incoming), #[trigger] incoming[i].0),
        merge_favs_spec(saved, incoming).len() >= saved.len(),
        merge_favs_spec(saved, incoming).skip(
            merge_favs_spec(saved, incoming).len() - saved.len(),
        ) == saved,
    decreases incoming.len(),
{
    if incoming.len() > 0 {
        let prev = incoming.drop_last();
        lemma_merge_favs_keeps(saved, prev);
        let s = merge_favs_spec(saved, prev);
        let last = incoming.last();
        if !has_id(s, last.0) {
            let t = seq![last] + s;
            assert(t[0].0 == last.0);
            assert forall|i: int| 0 <= i < incoming.len() implies has_id(t, #[trigger] incoming[i].0) by {
                if i < prev.len() {
                    assert(prev[i] == incoming[i]);
                    let k = choose|k: int| 0 <= k < s.len() && #[trigger] s[k].0 == prev[i].0;
                    assert(t[k + 1] == s[k]);
                }
            }
            assert(t.skip(t.len() - saved.len()) =~= s.skip(s.len() - saved.len()));
        } else {
            assert forall|i: int| 0 <= i < incoming.len() implies has_id(s, #[trigger] incoming[i].0) by {
                if i < prev.len() {
                    assert(prev[i] == incoming[i]);
                }
            }
        }
    }
}

/// Merges the site's watch list into the saved favourites (by title id) and
/// says how many were added.
pub fn merge_server_favs<T>(saved: &mut Vec<(u64, T)>, incoming: Vec<(u64, T)>) -> (added: usize)
    ensures
        final(saved)@ == merge_favs_spec(old(saved)@, incoming@),
        final(saved)@.len() == old(saved)@.len() + added,
{
    let ghost inc = incoming@;
    let ghost start = saved@;
    let start_len = saved.len();
    let mut rest = incoming;
    let ghost mut done: int = 0;
    assert(inc.skip(0) =~= inc);
    assert(inc.take(0) =~= Seq::<(u64, T)>::empty());
    while rest.len() > 0
        invariant
            0 <= done <= inc.len(),
            rest@ == inc.skip(done),
            saved@ == merge_favs_spec(start, inc.take(done)),
            saved@.len() >= start.len(),
            start_len == start.len(),
        decreases rest@.len(),
    {
        let t = rest.remove(0);
        assert(t == inc[done]);
        assert(inc.take(done + 1).drop_last() =~= inc.take(done));
        let mut found = false;
        let mut i: usize = 0;
        while i < saved.len()
            invariant
                i <= saved@.len(),
                found == exists|k: int| 0 <= k < i && #[trigger] saved@[k].0 == t.0,
            decreases saved@.len() - i,
        {
            if saved[i].0 == t.0 {
                found = true;
            }
            i = i + 1;
        }
        assert(found == has_id(saved@, t.0));
        if !found {
            saved.insert(0, t);
            assert(saved@ =~= seq![inc[done]] + merge_favs_spec(start, inc.take(done)));
        }
        proof {
            done = done + 1;
        }
    }
    assert(inc.take(done) =~= inc);
    saved.len() - start_len
}


// ---------------------------------------------------------------------------
// Remembered server positions
// ---------------------------------------------------------------------------

/// An episode: title id, season, episode.
pub type EpisodeKey = (u64, u64, u64);

/// Seconds a position asked of the site stays good.
pub const POS_FRESH_SECS: u64 = 300;

/// Above this many entries the remembered positions are forgotten at once.
pub const POS_CACHE_MAX: usize = 5000;

/// The server positions asked lately, with when they were asked (seconds
/// on a clock that only goes forward), so that opening a title does not ask
/// the site again for every episode.
pub struct PosCache<V> {
    pub entries: Vec<(EpisodeKey, u64, V)>,
}

/// What is remembered of an episode, if anything.
pub open spec fn cache_get<V>(s: Seq<(EpisodeKey, u64, V)>, key: EpisodeKey) -> Option<(u64, V)>
    decreases s.len(),
{
    if s.len() == 0 {
        None
    } else if s[0].0 == key {
        Some((s[0].1, s[0].2))
    } else {
        cache_get(s.drop_first(), key)
    }
}

/// The entries after remembering `v` for `key` at `now`: first forgotten
/// all when there are more than 5000, then the entry of `key` replaced in
/// place, or a new entry put last.
pub open spec fn cache_put<V>(s: Seq<(EpisodeKey, u64, V)>, key: EpisodeKey, now: u64, v: V) -> Seq<(EpisodeKey, u64, V)> {
    let base = if s.len() > POS_CACHE_MAX {
        Seq::empty()
    } else {
        s
    };
    cache_set(base, key, now, v)
}

pub open spec fn cache_set<V>(s: Seq<(EpisodeKey, u64, V)>, key: EpisodeKey, now: u64, v: V) -> Seq<(EpisodeKey, u64, V)>
    decreases s.len(),
{
    if s.len() == 0 {
        seq![(key, now, v)]
    } else if s[0].0 == key {
        s.update(0, (key, now, v))
    } else {
        seq![s[0]] + cache_set(s.drop_first(), key, now, v)
    }
}

/// A remembered position still counts at `now` when it was asked less than
/// five minutes before.
pub open spec fn fresh(at: u64, now: u64) -> bool {
    now < at || now - at < POS_FRESH_SECS
}

fn same_key(a: EpisodeKey, b: EpisodeKey) -> (r: bool)
    ensures
        r == (a == b),
{
    a.0 == b.0 && a.1 == b.1 && a.2 == b.2
}

proof fn lemma_cache_set_get<V>(s: Seq<(EpisodeKey, u64, V)>, key: EpisodeKey, now: u64, v: V, other: EpisodeKey)
    ensures
        cache_get(cache_set(s, key, now, v), key) == Some((now, v)),
        other != key ==> cache_get(cache_set(s, key, now, v), other) == cache_get(s, other),
    decreases s.len(),
{
    let e = (key, now, v);
    if s.len() == 0 {
        let t = seq![e];
        assert(cache_set(s, key, now, v) == t);
        assert(t[0] == e);
        assert(t.drop_first() =~= Seq::<(EpisodeKey, u64, V)>::empty());
        if other != key {
            assert(cache_get(t, other) == cache_get(t.drop_first(), other));
        }
    } else if s[0].0 == key {
        let t = s.update(0, e);
        assert(cache_set(s, key, now, v) == t);
        assert(t[0] == e);
        assert(t.drop_first() =~= s.drop_first());
        if other != key {
            assert(cache_get(t, other) == cache_get(t.drop_first(), other));
            assert(cache_get(s, other) == cache_get(s.drop_first(), other));
        }
    } else {
        let r = cache_set(s.drop_first(), key, now, v);
        lemma_cache_set_get(s.drop_first(), key, now, v, other);
        let t = seq![s[0]] + r;
        assert(cache_set(s, key, now, v) == t);
        assert(t[0] == s[0]);
        assert(t.drop_first() =~= r);
        assert(cache_get(t, key) == cache_get(r, key));
        if other != key {
            if s[0].0 == other {
                assert(cache_get(t, other) == Some((s[0].1, s[0].2)));
            } else {
                assert(cache_get(t, other) == cache_get(r, other));
                assert(cache_get(s, other) == cache_get(s.drop_first(), other));
            }
        }
    }
}

impl<V: Copy> PosCache<V> {
    /// Nothing remembered.
    pub fn new() -> (c: PosCache<V>)
        ensures
            c.entries@.len() == 0,
    {
        PosCache { entries: Vec::new() }
    }

    /// The position remembered for an episode, when it was asked less than
    /// five minutes before `now`.
    pub fn lookup(&self, key: EpisodeKey, now: u64) -> (r: Option<V>)
        ensures
            r == match cache_get(self.entries@, key) {
                Some((at, v)) => if fresh(at, now) {
                    Some(v)
                } else {
                    None
                },
                None => None,
            },
    {
        let mut i: usize = 0;
        let ghost s = self.entries@;
        assert(s.skip(0) =~= s);
        while i < self.entries.len()
            invariant
                s == self.entries@,
                i <= s.len(),
                cache_get(s, key) == cache_get(s.skip(i as int), key),
            decreases s.len() - i,
        {
            assert(s.skip(i as int).drop_first() =~= s.skip(i + 1));
            assert(s.skip(i as int)[0] == s[i as int]);
            let e = &self.entries[i];
            if same_key(e.0, key) {
                let at = e.1;
                if now < at || now - at < POS_FRESH_SECS {
                    return Some(e.2);
                } else {
                    return None;
                }
            }
            i = i + 1;
        }
        None
    }

    /// Remembers the position asked for an episode at `now`.
    pub fn store(&mut self, key: EpisodeKey, now: u64, v: V)
        ensures
            final(self).entries@ == cache_put(old(self).entries@, key, now, v),
    {
        let ghost start = self.entries@;
        if self.entries.len() > POS_CACHE_MAX {
            self.entries = Vec::new();
        }
        let ghost base = self.entries@;
        assert(cache_put(start, key, now, v) == cache_set(base, key, now, v)) by {
            if start.len() > POS_CACHE_MAX {
                assert(base =~= Seq::<(EpisodeKey, u64, V)>::empty());
            }
        }
        let mut i: usize = 0;
        while i < self.entries.len()
            invariant
                base == self.entries@,
                cache_put(old(self).entries@, key, now, v) == cache_set(base, key, now, v),
                i <= base.len(),
                forall|k: int| 0 <= k < i ==> base[k].0 != key,
            decreases base.len() - i,
        {
            if same_key(self.entries[i].0, key) {
                self.entries.set(i, (key, now, v));
                proof {
                    lemma_cache_set_at(base, key, now, v, i as int);
                }
                assert(self.entries@ =~= base.update(i as int, (key, now, v)));
                return;
            }
            i = i + 1;
        }
        self.entries.push((key, now, v));
        proof {
            lemma_cache_set_absent(base, key, now, v);
        }
    }
}

proof fn lemma_cache_set_at<V>(s: Seq<(EpisodeKey, u64, V)>, key: EpisodeKey, now: u64, v: V, i: int)
    requires
        0 <= i < s.len(),
        s[i].0 == key,
        forall|k: int| 0 <= k < i ==> s[k].0 != key,
    ensures
        cache_set(s, key, now, v) == s.update(i, (key, now, v)),
    decreases i,
{
    if i > 0 {
        lemma_cache_set_at(s.drop_first(), key, now, v, i - 1);
        assert(seq![s[0]] + s.drop_first().update(i - 1, (key, now, v)) =~= s.update(
            i,
            (key, now, v),
        ));
    }
}

proof fn lemma_cache_set_absent<V>(s: Seq<(EpisodeKey, u64, V)>, key: EpisodeKey, now: u64, v: V)
    requires
        forall|k: int| 0 <= k < s.len() ==> s[k].0 != key,
    ensures
        cache_set(s, key, now, v) == s.push((key, now, v)),
    decreases s.len(),
{
    if s.len() > 0 {
        lemma_cache_set_absent(s.drop_first(), key, now, v);
        assert(seq![s[0]] + s.drop_first().push((key, now, v)) =~= s.push((key, now, v)));
    }
}

/// A position just remembered is found again for five minutes, and
/// remembering one episode's position keeps the others (unless the store
/// was full and was forgotten first).
pub proof fn lemma_stored_position_found<V>(
    s: Seq<(EpisodeKey, u64, V)>,
    key: EpisodeKey,
    now: u64,
    v: V,
    other: EpisodeKey,
)
    ensures
        cache_get(cache_put(s, key, now, v), key) == Some((now, v)),
        fresh(now, now),
        s.len() <= POS_CACHE_MAX && other != key ==> cache_get(cache_put(s, key, now, v), other)
            == cache_get(s, other),
{
    let base = if s.len() > POS_CACHE_MAX {
        Seq::empty()
    } else {
        s
    };
    lemma_cache_set_get(base, key, now, v, other);
}

} // verus!
