use vstd::prelude::*;
use vstd::string::*;
use crate::model::{
    File, GhAccessResponse, GhDeviceCodeRequest, GhDeviceCodeResponse, GhFiles,
    GhGistCreateRequest, GhGistResponse, GhPollRequest, SCRIBR_CONFIG_FILE_NAME, files_view,
};

verus! {

/// The OAuth application that scribr authenticates as.
pub const OAUTH_CLIENT_ID: &'static str = "2095923defc5784232a5";

/// The permission asked for: gists only.
pub const OAUTH_SCOPE: &'static str = "gist";

pub const OAUTH_GRANT_TYPE: &'static str = "urn:ietf:params:oauth:grant-type:device_code";

pub const DEVICE_CODE_URL: &'static str = "https://github.com/login/device/code";

pub const ACCESS_TOKEN_URL: &'static str = "https://github.com/login/oauth/access_token";

pub const GISTS_URL: &'static str = "https://api.github.com/gists";

pub const GH_DEFAULT_GIST_DESC: &'static str =
    "Gist for storing my scribr notes - https://gittoby.github.io/scribr/";

/// The `Accept` header of every request.
pub const ACCEPT_JSON: &'static str = "application/json";

/// The `User-Agent` header of every request.
pub const USER_AGENT: &'static str = "scribr";

#[derive(Clone, Copy, Debug, PartialEq, Eq, Structural)]
pub enum Method {
    Get,
    Post,
    Patch,
}

/// The JSON body of a request, if it has one.
#[derive(Clone, Debug)]
pub enum RequestBody {
    Empty,
    DeviceCode(GhDeviceCodeRequest),
    Poll(GhPollRequest),
    Gist(GhGistCreateRequest),
}

/// One request to the provider. Every request carries the `Accept` and
/// `User-Agent` headers above, and a bearer token where `token` holds one.
#[derive(Clone, Debug)]
pub struct WebRequest {
    pub method: Method,
    pub url: String,
    pub token: Option<String>,
    pub body: RequestBody,
}

pub open spec fn token_view(token: Option<String>) -> Option<Seq<char>> {
    match token {
        Some(t) => Some(t@),
        None => None,
    }
}

/// The address of the gist `id`.
pub open spec fn gist_url(id: Seq<char>) -> Seq<char> {
    GISTS_URL@ + seq!['/'] + id
}

pub open spec fn is_device_code_request(r: WebRequest) -> bool {
    &&& r.method == Method::Post
    &&& r.url@ == DEVICE_CODE_URL@
    &&& r.token is None
    &&& r.body matches RequestBody::DeviceCode(b) && b.client_id@ == OAUTH_CLIENT_ID@ && b.scope@
        == OAUTH_SCOPE@
}

pub open spec fn is_poll_request(r: WebRequest, device_code: Seq<char>) -> bool {
    &&& r.method == Method::Post
    &&& r.url@ == ACCESS_TOKEN_URL@
    &&& r.token is None
    &&& r.body matches RequestBody::Poll(b) && b.client_id@ == OAUTH_CLIENT_ID@ && b.device_code@
        == device_code && b.grant_type@ == OAUTH_GRANT_TYPE@
}

pub open spec fn is_get(r: WebRequest, url: Seq<char>, token: Seq<char>) -> bool {
    &&& r.method == Method::Get
    &&& r.url@ == url
    &&& token_view(r.token) == Some(token)
    &&& r.body is Empty
}

/// A request that sends `files` as the content of a gist, with the fixed
/// description.
pub open spec fn is_gist_request(
    r: WebRequest,
    method: Method,
    url: Seq<char>,
    token: Seq<char>,
    public: Option<bool>,
    files: Seq<(Seq<char>, Seq<char>)>,
) -> bool {
    &&& r.method == method
    &&& r.url@ == url
    &&& token_view(r.token) == Some(token)
    &&& r.body matches RequestBody::Gist(b) && b.description matches Some(d) && d@
        == GH_DEFAULT_GIST_DESC@ && b.public == public && files_view(b.files@) == files
}

fn gist_address(gist_id: &str) -> (r: String)
    ensures
        r@ == gist_url(gist_id@),
{
    proof {
        reveal_strlit("/");
    }
    let mut url = String::from_str(GISTS_URL);
    url.append("/");
    url.append(gist_id);
    proof {
        assert("/"@ =~= seq!['/']);
    }
    url
}

/// The request that opens a device-code session.
pub fn device_code_request() -> (r: WebRequest)
    ensures
        is_device_code_request(r),
{
    WebRequest {
        method: Method::Post,
        url: String::from_str(DEVICE_CODE_URL),
        token: None,
        body: RequestBody::DeviceCode(
            GhDeviceCodeRequest {
                client_id: String::from_str(OAUTH_CLIENT_ID),
                scope: String::from_str(OAUTH_SCOPE),
            },
        ),
    }
}

/// The request that polls for the access token of the session `device_code`.
pub fn send_access_code_request(device_code: &str) -> (r: WebRequest)
    ensures
        is_poll_request(r, device_code@),
{
    WebRequest {
        method: Method::Post,
        url: String::from_str(ACCESS_TOKEN_URL),
        token: None,
        body: RequestBody::Poll(
            GhPollRequest {
                client_id: String::from_str(OAUTH_CLIENT_ID),
                device_code: String::from_str(device_code),
                grant_type: String::from_str(OAUTH_GRANT_TYPE),
            },
        ),
    }
}

/// Where the device-code flow stands.
#[derive(Clone, Debug)]
pub enum AuthState {
    /// The device code has been asked for.
    Requested,
    /// The user has been shown the code; the token is polled for.
    Polling { device_code: String, interval: u64 },
    Granted { token: String },
    Failed,
}

/// What came back from the last request of the flow; `None` for a failed
/// request or a body that could not be read.
#[derive(Clone, Debug)]
pub enum AuthEvent {
    DeviceCode(Option<GhDeviceCodeResponse>),
    Token(Option<GhAccessResponse>),
}

/// What the driver of the flow does next.
#[derive(Clone, Debug)]
pub enum AuthAction {
    Send(WebRequest),
    /// Show the user the code and where to enter it, then send the request.
    Prompt { user_code: String, verification_uri: String, then: WebRequest },
    /// Wait `secs` seconds, then send the request.
    SleepThenSend { secs: u64, then: WebRequest },
    /// The flow is over: the bearer token.
    Done(String),
    /// The flow cannot go on.
    Fail,
}

/// The first step of the device-code flow: ask for a device code.
pub fn auth_start() -> (r: (AuthState, AuthAction))
    ensures
        r.0 is Requested,
        r.1 matches AuthAction::Send(req) && is_device_code_request(req),
{
    (AuthState::Requested, AuthAction::Send(device_code_request()))
}

/// One step of the device-code flow. A failed device-code request ends the
/// flow. A granted token ends it too. Any other poll answer waits the
/// session's interval and polls again, with no limit on the number of polls.
pub fn auth_step(state: AuthState, event: AuthEvent) -> (r: (AuthState, AuthAction))
    ensures
        match (state, event) {
            (AuthState::Requested, AuthEvent::DeviceCode(Some(resp))) => {
                &&& r.0 matches AuthState::Polling { device_code, interval } && device_code@
                    == resp.device_code@ && interval == resp.interval
                &&& r.1 matches AuthAction::Prompt { user_code, verification_uri, then }
                    && user_code@ == resp.user_code@ && verification_uri@
                    == resp.verification_uri@ && is_poll_request(then, resp.device_code@)
            },
            (AuthState::Polling { device_code, interval }, AuthEvent::Token(Some(access))) => {
                &&& r.0 matches AuthState::Granted { token } && token@ == access.access_token@
                &&& r.1 matches AuthAction::Done(token) && token@ == access.access_token@
            },
            (AuthState::Polling { device_code, interval }, AuthEvent::Token(None)) => {
                &&& r.0 matches AuthState::Polling { device_code: d, interval: i } && d@
                    == device_code@ && i == interval
                &&& r.1 matches AuthAction::SleepThenSend { secs, then } && secs == interval
                    && is_poll_request(then, device_code@)
            },
            _ => r.0 is Failed && r.1 is Fail,
        },
{
    match (state, event) {
        (AuthState::Requested, AuthEvent::DeviceCode(Some(resp))) => {
            let then = send_access_code_request(resp.device_code.as_str());
            (
                AuthState::Polling { device_code: resp.device_code, interval: resp.interval },
                AuthAction::Prompt {
                    user_code: resp.user_code,
                    verification_uri: resp.verification_uri,
                    then,
                },
            )
        },
        (AuthState::Polling { device_code, interval }, AuthEvent::Token(Some(access))) => {
            let token = access.access_token.clone();
            (AuthState::Granted { token }, AuthAction::Done(access.access_token))
        },
        (AuthState::Polling { device_code, interval }, AuthEvent::Token(None)) => {
            let then = send_access_code_request(device_code.as_str());
            (AuthState::Polling { device_code, interval }, AuthAction::SleepThenSend { secs: interval, then })
        },
        _ => (AuthState::Failed, AuthAction::Fail),
    }
}

/// The request that lists the gists of the authenticated account.
pub fn gh_list_gists_request(gh_access_token: &str) -> (r: WebRequest)
    ensures
        is_get(r, GISTS_URL@, gh_access_token@),
{
    WebRequest {
        method: Method::Get,
        url: String::from_str(GISTS_URL),
        token: Some(String::from_str(gh_access_token)),
        body: RequestBody::Empty,
    }
}

/// The request that fetches the gist `gist_id`. A failed fetch means that no
/// such gist is at hand.
pub fn gh_fetch_existing_scribr_gist(gh_access_token: &str, gist_id: &str) -> (r: WebRequest)
    ensures
        is_get(r, gist_url(gist_id@), gh_access_token@),
{
    WebRequest {
        method: Method::Get,
        url: gist_address(gist_id),
        token: Some(String::from_str(gh_access_token)),
        body: RequestBody::Empty,
    }
}

/// How to find the scribr gist: fetch it by id where one is given, else list
/// the account's gists and scan them with `gh_search_existing_scribr_gist`.
pub fn gh_fetch_scribr_gist(gh_access_token: &str, gist_id: &Option<String>) -> (r: WebRequest)
    ensures
        match gist_id {
            Some(id) => is_get(r, gist_url(id@), gh_access_token@),
            None => is_get(r, GISTS_URL@, gh_access_token@),
        },
{
    match gist_id {
        Some(id) => gh_fetch_existing_scribr_gist(gh_access_token, id.as_str()),
        None => gh_list_gists_request(gh_access_token),
    }
}

/// The request that creates a new private gist holding `initial_files`.
pub fn gh_create_scribr_gist(gh_access_token: &str, initial_files: GhFiles) -> (r: WebRequest)
    ensures
        is_gist_request(
            r,
            Method::Post,
            GISTS_URL@,
            gh_access_token@,
            Some(false),
            files_view(initial_files@),
        ),
{
    WebRequest {
        method: Method::Post,
        url: String::from_str(GISTS_URL),
        token: Some(String::from_str(gh_access_token)),
        body: RequestBody::Gist(
            GhGistCreateRequest {
                description: Some(String::from_str(GH_DEFAULT_GIST_DESC)),
                public: Some(false),
                files: initial_files,
            },
        ),
    }
}

/// The request that writes `files` into the gist `gist_id` in one round trip,
/// creating or overwriting each of them.
pub fn gh_push_gist_files(gh_access_token: &str, gist_id: &str, files: GhFiles) -> (r: WebRequest)
    ensures
        is_gist_request(
            r,
            Method::Patch,
            gist_url(gist_id@),
            gh_access_token@,
            None,
            files_view(files@),
        ),
{
    WebRequest {
        method: Method::Patch,
        url: gist_address(gist_id),
        token: Some(String::from_str(gh_access_token)),
        body: RequestBody::Gist(
            GhGistCreateRequest {
                description: Some(String::from_str(GH_DEFAULT_GIST_DESC)),
                public: None,
                files,
            },
        ),
    }
}

/// The gist lists a file named like the settings file.
pub open spec fn has_config_file(g: GhGistResponse) -> bool {
    exists|k: int| 0 <= k < g.files.len() && (#[trigger] g.files@[k]).0@ == SCRIBR_CONFIG_FILE_NAME@
}

/// The position of the first gist at or after `k` that lists the settings
/// file; -1 if none does.
pub open spec fn first_config_gist(gists: Seq<GhGistResponse>, k: int) -> int
    decreases gists.len() - k,
{
    if k < 0 || k >= gists.len() {
        -1
    } else if has_config_file(gists[k]) {
        k
    } else {
        first_config_gist(gists, k + 1)
    }
}

fn lists_config_file(gist: &GhGistResponse) -> (r: bool)
    ensures
        r == has_config_file(*gist),
{
    let config = String::from_str(SCRIBR_CONFIG_FILE_NAME);
    let mut k: usize = 0;
    while k < gist.files.len()
        invariant
            k <= gist.files.len(),
            config@ == SCRIBR_CONFIG_FILE_NAME@,
            forall|m: int| 0 <= m < k ==> (#[trigger] gist.files@[m]).0@ != SCRIBR_CONFIG_FILE_NAME@,
        decreases gist.files.len() - k,
    {
        if gist.files[k].0 == config {
            return true;
        }
        k += 1;
    }
    false
}

/// The first of the account's gists that lists a file named like the settings
/// file; `None` once all of them have been scanned without one.
pub fn gh_search_existing_scribr_gist(gists: Vec<GhGistResponse>) -> (r: Option<GhGistResponse>)
    ensures
        match r {
            Some(g) => first_config_gist(gists@, 0) >= 0 && g == gists@[first_config_gist(gists@, 0)],
            None => first_config_gist(gists@, 0) == -1,
        },
{
    let ghost all = gists@;
    let mut pool = gists;
    let mut i: usize = 0;
    while i < pool.len()
        invariant
            pool@ == all,
            all == gists@,
            i <= pool.len(),
            first_config_gist(all, 0) == first_config_gist(all, i as int),
        decreases pool.len() - i,
    {
        if lists_config_file(&pool[i]) {
            assert(first_config_gist(all, i as int) == i);
            let found = pool.remove(i);
            assert(found == all[first_config_gist(all, 0)]);
            return Some(found);
        }
        i += 1;
    }
    None
}

/// For each file that `gist` lists, its name and the request that fetches its
/// content.
pub fn gh_file_requests(gh_access_token: &str, gist: &GhGistResponse) -> (r: Vec<(String, WebRequest)>)
    ensures
        r.len() == gist.files.len(),
        forall|k: int|
            0 <= k < r.len() ==> (#[trigger] r@[k]).0@ == gist.files@[k].0@ && is_get(
                r@[k].1,
                gist.files@[k].1.raw_url@,
                gh_access_token@,
            ),
{
    let mut out: Vec<(String, WebRequest)> = Vec::new();
    let mut k: usize = 0;
    while k < gist.files.len()
        invariant
            k <= gist.files.len(),
            out.len() == k,
            forall|m: int|
                0 <= m < k ==> (#[trigger] out@[m]).0@ == gist.files@[m].0@ && is_get(
                    out@[m].1,
                    gist.files@[m].1.raw_url@,
                    gh_access_token@,
                ),
        decreases gist.files.len() - k,
    {
        let request = WebRequest {
            method: Method::Get,
            url: gist.files[k].1.raw_url.clone(),
            token: Some(String::from_str(gh_access_token)),
            body: RequestBody::Empty,
        };
        out.push((gist.files[k].0.clone(), request));
        k += 1;
    }
    out
}

/// The files of a pull: those whose content came back, and the names of
/// those whose fetch failed.
#[derive(Clone, Debug)]
pub struct PulledFiles {
    pub files: GhFiles,
    pub failed: Vec<String>,
}

pub open spec fn opt_view(o: Option<String>) -> Option<Seq<char>> {
    match o {
        Some(t) => Some(t@),
        None => None,
    }
}

/// Each file that `gist` lists, by name, with the outcome of fetching it.
pub open spec fn fetched(gist: GhGistResponse, outcomes: Seq<Option<String>>) -> Seq<(Seq<char>, Option<Seq<char>>)> {
    Seq::new(gist.files.len() as nat, |k: int| (gist.files@[k].0@, opt_view(outcomes[k])))
}

/// Name and content of each fetched file whose content came back, in order.
pub open spec fn pulled(f: Seq<(Seq<char>, Option<Seq<char>>)>) -> Seq<(Seq<char>, Seq<char>)>
    decreases f.len(),
{
    if f.len() == 0 {
        Seq::empty()
    } else {
        match f.last().1 {
            Some(c) => pulled(f.drop_last()).push((f.last().0, c)),
            None => pulled(f.drop_last()),
        }
    }
}

/// Name of each fetched file whose fetch failed, in order.
pub open spec fn not_pulled(f: Seq<(Seq<char>, Option<Seq<char>>)>) -> Seq<Seq<char>>
    decreases f.len(),
{
    if f.len() == 0 {
        Seq::empty()
    } else {
        match f.last().1 {
            Some(c) => not_pulled(f.drop_last()),
            None => not_pulled(f.drop_last()).push(f.last().0),
        }
    }
}

/// No two of the named files share a name.
pub open spec fn distinct_names<T>(s: Seq<(Seq<char>, T)>) -> bool {
    forall|i: int, j: int| 0 <= i < j < s.len() ==> s[i].0 != s[j].0
}

pub open spec fn gist_file_names(gist: GhGistResponse) -> Seq<(Seq<char>, ())> {
    gist.files@.map_values(|f: (String, crate::model::FileData)| (f.0@, ()))
}

/// Gathers a pull of `gist`: `outcomes[k]` is the content fetched for its
/// `k`-th file (by the `k`-th request of `gh_file_requests`), or `None` where
/// that fetch failed. A failed fetch leaves its file out and is named in
/// `failed`; the other files come through, under the names the gist lists.
pub fn gh_pull_gist_files(gist: &GhGistResponse, outcomes: Vec<Option<String>>) -> (r: PulledFiles)
    requires
        outcomes.len() == gist.files.len(),
    ensures
        files_view(r.files@) == pulled(fetched(*gist, outcomes@)),
        r.failed@.map_values(|n: String| n@) == not_pulled(fetched(*gist, outcomes@)),
        distinct_names(gist_file_names(*gist)) ==> distinct_names(files_view(r.files@)),
{
    let ghost all = fetched(*gist, outcomes@);
    let ghost names = gist_file_names(*gist);
    let mut files: GhFiles = Vec::new();
    let mut failed: Vec<String> = Vec::new();
    let mut i: usize = 0;
    while i < gist.files.len()
        invariant
            outcomes.len() == gist.files.len(),
            all == fetched(*gist, outcomes@),
            names == gist_file_names(*gist),
            i <= gist.files.len(),
            files_view(files@) == pulled(all.subrange(0, i as int)),
            failed@.map_values(|n: String| n@) == not_pulled(all.subrange(0, i as int)),
            names.len() == gist.files.len(),
            forall|k: int|
                #![trigger files@[k]]
                0 <= k < files.len() ==> exists|j: int|
                    #![trigger names[j]]
                    0 <= j < i && files@[k].0@ == names[j].0,
            distinct_names(names) ==> distinct_names(files_view(files@)),
        decreases gist.files.len() - i,
    {
        assert(all.subrange(0, i + 1).drop_last() =~= all.subrange(0, i as int));
        assert(all[i as int] == (gist.files@[i as int].0@, opt_view(outcomes@[i as int])));
        assert(names[i as int].0 == gist.files@[i as int].0@);
        let name = gist.files[i].0.clone();
        match &outcomes[i] {
            Some(content) => {
                let ghost before = files@;
                files.push((name, File { content: content.clone() }));
                assert(files_view(files@) =~= pulled(all.subrange(0, i + 1)));
                assert forall|k: int|
                    #![trigger files@[k]]
                    0 <= k < files.len() implies exists|j: int|
                        #![trigger names[j]]
                        0 <= j < i + 1 && files@[k].0@ == names[j].0 by {
                    if k < files.len() - 1 {
                        assert(files@[k] == before[k]);
                    } else {
                        assert(files@[k].0@ == names[i as int].0);
                    }
                }
                proof {
                    if distinct_names(names) {
                        assert forall|a: int, b: int|
                            0 <= a < b < files.len() implies files_view(files@)[a].0 != files_view(
                                files@,
                            )[b].0 by {
                            if b == files.len() - 1 {
                                assert(files@[a] == before[a]);
                                let j = choose|j: int| 0 <= j < i && before[a].0@ == names[j].0;
                                assert(names[j].0 != names[i as int].0);
                            } else {
                                assert(files@[a] == before[a] && files@[b] == before[b]);
                                assert(files_view(before)[a].0 != files_view(before)[b].0);
                            }
                        }
                    }
                }
            },
            None => {
                failed.push(name);
                assert(failed@.map_values(|n: String| n@) =~= not_pulled(all.subrange(0, i + 1)));
                assert forall|k: int|
                    #![trigger files@[k]]
                    0 <= k < files.len() implies exists|j: int|
                        #![trigger names[j]]
                        0 <= j < i + 1 && files@[k].0@ == names[j].0 by {
                    let j = choose|j: int| 0 <= j < i && files@[k].0@ == names[j].0;
                    assert(0 <= j < i + 1 && files@[k].0@ == names[j].0);
                }
            },
        }
        i += 1;
    }
    assert(all.subrange(0, all.len() as int) =~= all);
    PulledFiles { files, failed }
}

} // verus!
