//! The requests that the BTN client makes, the proofs of work that go with them, and what it takes
//! from their replies.

use vstd::prelude::*;
use crate::btn_http::same_header;
use crate::btn_json::{json_string, read_json_text};
use crate::btn_pow::{found_bytes, nonce_at, search_ends, solves, POW_MAX_ITERATIONS};
use crate::btn_transport::{
    cached_change,
    algorithm_of, append_param, b64, b64_bytes_of, base64_decode, base64_encode, gzip, gzip_bytes,
    heartbeat_body, heartbeat_text, json_text_at, query_bytes, solve_pow, url_encode_query,
    with_param, BtnAbility, BtnAbilityKind, BtnConfigResponse, BtnHttpClient, BtnHttpMethod,
    BtnHttpRequest, BtnHttpResponse, BtnMetadataStore, BtnNetwork, BtnNetworkConfig, ChangeView,
    ConfigReply, ModuleChange, PowCaptchaData, RequestView, RetryDecision, change_views, handshake,
    BTN_USER_AGENT, CACHE_KEY_IP_ALLOWLIST_VALUE, CACHE_KEY_IP_ALLOWLIST_VERSION,
    CACHE_KEY_IP_DENYLIST_VALUE, CACHE_KEY_IP_DENYLIST_VERSION, CACHE_KEY_RULES,
    HEADER_AUTHENTICATION, HEADER_BTN_APP_ID, HEADER_BTN_APP_SECRET, HEADER_X_BTN_APP_ID,
    HEADER_X_BTN_APP_SECRET, HEADER_X_BTN_CONTENT_VERSION, HEADER_X_BTN_INSTALLATION_ID,
    HEADER_X_BTN_POW_ID, HEADER_X_BTN_POW_SOLUTION,
};
use crate::text::{ascii_lower_of, decimal, blank, chars_of, concat3, decimal_int, i64_text, is_blank_text, push_text, str_eq, string_of, text_le};
use crate::wire::{bytes64, now_millis, sub_bytes};

verus! {

/// Which list of addresses.
#[derive(Clone, Copy, PartialEq, Eq, Structural, Debug)]
pub enum BtnIpAbility {
    AllowList,
    DenyList,
}

// --------------------------------------------------------------- authorisation
/// A request for a document, as a value.
pub open spec fn get_view(url: Seq<char>) -> RequestView {
    RequestView { url, method: BtnHttpMethod::Get, headers: Seq::empty(), body: None }
}

/// A request that sends a body, as a value.
pub open spec fn post_view(url: Seq<char>, body: Seq<u8>) -> RequestView {
    RequestView { url, method: BtnHttpMethod::Post, headers: Seq::empty(), body: Some(body) }
}

/// A request with one more header.
pub open spec fn with_header(r: RequestView, name: Seq<char>, value: Seq<char>) -> RequestView {
    RequestView { headers: r.headers.push((name, value)), ..r }
}

/// The value of the header that carries both parts of an account.
pub open spec fn bearer(config: BtnNetworkConfig) -> Seq<char> {
    "Bearer "@ + config.app_id@ + "@"@ + config.app_secret@
}

/// A request with the headers that name the client's account. An anonymous account also names the
/// installation.
pub open spec fn authorised(config: BtnNetworkConfig, r: RequestView) -> RequestView {
    let r = with_header(r, "User-Agent"@, BTN_USER_AGENT@);
    let r = with_header(r, "Content-Type"@, "application/json"@);
    let r = with_header(r, HEADER_BTN_APP_ID@, config.app_id@);
    let r = with_header(r, HEADER_BTN_APP_SECRET@, config.app_secret@);
    let r = with_header(r, HEADER_X_BTN_APP_ID@, config.app_id@);
    let r = with_header(r, HEADER_X_BTN_APP_SECRET@, config.app_secret@);
    let r = with_header(r, HEADER_AUTHENTICATION@, bearer(config));
    if config.anonymous() {
        with_header(r, HEADER_X_BTN_INSTALLATION_ID@, config.installation_id@)
    } else {
        r
    }
}

/// Adds the headers that name the client's account.
pub fn apply_auth(config: &BtnNetworkConfig, request: BtnHttpRequest) -> (r: BtnHttpRequest)
    ensures
        r@ == authorised(*config, request@),
{
    let mut token = chars_of("Bearer ");
    push_text(&mut token, config.app_id.as_str());
    push_text(&mut token, "@");
    push_text(&mut token, config.app_secret.as_str());
    let token = string_of(token.as_slice());
    let request = request.header("User-Agent", BTN_USER_AGENT);
    let request = request.header("Content-Type", "application/json");
    let request = request.header(HEADER_BTN_APP_ID, config.app_id.as_str());
    let request = request.header(HEADER_BTN_APP_SECRET, config.app_secret.as_str());
    let request = request.header(HEADER_X_BTN_APP_ID, config.app_id.as_str());
    let request = request.header(HEADER_X_BTN_APP_SECRET, config.app_secret.as_str());
    let request = request.header(HEADER_AUTHENTICATION, token.as_str());
    if config.is_anonymous() {
        request.header(HEADER_X_BTN_INSTALLATION_ID, config.installation_id.as_str())
    } else {
        request
    }
}

// -------------------------------------------------------------- proofs of work
/// Where a challenge of some type is asked for.
pub open spec fn captcha_url(endpoint: Seq<char>, pow_type: Seq<char>) -> Seq<char> {
    endpoint + "?type="@ + pow_type
}

/// A request with the solution of a challenge.
pub open spec fn with_solution(r: RequestView, id: Seq<char>, nonce: Seq<u8>) -> RequestView {
    with_header(with_header(r, HEADER_X_BTN_POW_ID@, id), HEADER_X_BTN_POW_SOLUTION@, b64(nonce))
}

/// A request with the solution that was found of a challenge, if one was.
pub open spec fn with_found(r: RequestView, id: Seq<char>, found: Option<Seq<u8>>) -> RequestView {
    match found {
        Some(nonce) => with_solution(r, id, nonce),
        None => r,
    }
}

/// Whether `sent` is `r` with the solution of a challenge that a search from somewhere finds. It is
/// `r` itself where there is no challenge, it cannot be read, its algorithm is not known or the
/// search finds nothing.
pub open spec fn solved(data: Option<PowCaptchaData>, r: RequestView, sent: RequestView) -> bool {
    match data {
        None => sent == r,
        Some(d) => if b64_bytes_of(d.challenge_base64@) is Some && algorithm_of(d.algorithm@) is Some {
            exists|start: u64, found: Option<Seq<u8>>|
                {
                    &&& #[trigger] search_ends(
                        algorithm_of(d.algorithm@)->0,
                        b64_bytes_of(d.challenge_base64@)->0,
                        d.difficulty_bits as int,
                        start,
                        POW_MAX_ITERATIONS as int,
                        found,
                    )
                    &&& sent == with_found(r, d.id@, found)
                }
        } else {
            sent == r
        },
    }
}

/// Adds the solution of a challenge to a request.
pub fn answer_captcha(request: BtnHttpRequest, data: Option<PowCaptchaData>) -> (r: BtnHttpRequest)
    ensures
        solved(data, request@, r@),
{
    let ghost asked = data;
    let data = match data {
        Some(data) => data,
        None => return request,
    };
    let challenge = match base64_decode(data.challenge_base64.as_str()) {
        Some(challenge) => challenge,
        None => return request,
    };
    let found = solve_pow(challenge.as_slice(), data.difficulty_bits, data.algorithm.as_str());
    let ghost view = found_bytes(found);
    let ghost r0 = request@;
    let sent = match found {
        Some(nonce) => {
            let solution = base64_encode(nonce.as_slice());
            let request = request.header(HEADER_X_BTN_POW_ID, data.id.as_str());
            request.header(HEADER_X_BTN_POW_SOLUTION, solution.as_str())
        },
        None => request,
    };
    proof {
        assert(sent@ == with_found(r0, data.id@, view));
        if let Some(a) = algorithm_of(data.algorithm@) {
            let start = choose|start: u64| #[trigger]
                search_ends(
                    a,
                    challenge@,
                    data.difficulty_bits as int,
                    start,
                    POW_MAX_ITERATIONS as int,
                    view,
                );
            let d = asked->0;
            assert(search_ends(
                algorithm_of(d.algorithm@)->0,
                b64_bytes_of(d.challenge_base64@)->0,
                d.difficulty_bits as int,
                start,
                POW_MAX_ITERATIONS as int,
                view,
            ));
            assert(sent@ == with_found(r0, d.id@, view));
        }
    }
    sent
}

/// Whether a text may be read as a challenge, if it is one of a reply that is a success.
pub open spec fn challenge_of<P: Fn(&String) -> Option<PowCaptchaData>>(
    parse: P,
    reply: Result<BtnHttpResponse, String>,
    data: Option<PowCaptchaData>,
) -> bool {
    match reply {
        Ok(response) => if response.successful() {
            parse.ensures((&response.body,), data)
        } else {
            data is None
        },
        Err(_) => data is None,
    }
}

/// Whether `sent` may be what becomes of a request for which a proof of work of some type is asked:
/// where the server names no place for challenges it stays as it is.
pub open spec fn proven<H: BtnHttpClient, M, P: Fn(&String) -> Option<PowCaptchaData>>(
    n: BtnNetwork<H, M>,
    parse: P,
    pow_type: Seq<char>,
    r: RequestView,
    sent: RequestView,
) -> bool {
    if n.pow_endpoint is Some && !blank(n.pow_endpoint->0@) {
        exists|reply: Result<BtnHttpResponse, String>, data: Option<PowCaptchaData>|
            {
                &&& #[trigger] n.http.answers(
                    authorised(n.config, get_view(captcha_url(n.pow_endpoint->0@, pow_type))),
                    reply,
                )
                &&& challenge_of(parse, reply, data)
                &&& #[trigger] solved(data, r, sent)
            }
    } else {
        sent == r
    }
}

/// Whether a reply may come to a request, which is sent with a proof of work where `pow` asks for
/// one.
pub open spec fn exchanged<H: BtnHttpClient, M, P: Fn(&String) -> Option<PowCaptchaData>>(
    n: BtnNetwork<H, M>,
    parse: P,
    pow: bool,
    pow_type: Seq<char>,
    r: RequestView,
    reply: Result<BtnHttpResponse, String>,
) -> bool {
    exists|sent: RequestView|
        {
            &&& if pow {
                proven(n, parse, pow_type, r, sent)
            } else {
                sent == r
            }
            &&& #[trigger] n.http.answers(sent, reply)
        }
}

/// Whether a challenge can be read from any text.
pub open spec fn reads_any<T, P: Fn(&String) -> T>(parse: P) -> bool {
    forall|text: &String| parse.requires((text,))
}

// --------------------------------------------------------------------- replies
/// What is said of a reply that is no success.
pub open spec fn http_error(status: u16, body: Seq<char>) -> Seq<char> {
    "HTTP "@ + decimal_int(status as int) + " - "@ + body
}

fn http_error_text(status: u16, body: &str) -> (out: String)
    ensures
        out@ == http_error(status, body@),
{
    let mut out = chars_of("HTTP ");
    let code = i64_text(status as i64);
    push_text(&mut out, code.as_str());
    push_text(&mut out, " - ");
    push_text(&mut out, body);
    string_of(out.as_slice())
}

/// Whether `r` is what a reply comes to: its text where it is a success, or what went wrong.
pub open spec fn body_of(
    reply: Result<BtnHttpResponse, String>,
    r: Result<BtnHttpResponse, String>,
) -> bool {
    match reply {
        Err(e) => r == Err::<BtnHttpResponse, String>(e),
        Ok(response) => if response.successful() {
            r == Ok::<BtnHttpResponse, String>(response)
        } else {
            r matches Err(e) && e@ == http_error(response.status, response.body@)
        },
    }
}

/// The text of a reply that is a success, or what went wrong.
pub fn expect_success(reply: Result<BtnHttpResponse, String>) -> (r: Result<BtnHttpResponse, String>)
    ensures
        body_of(reply, r),
{
    match reply {
        Ok(response) => if response.is_successful() {
            Ok(response)
        } else {
            Err(http_error_text(response.status, response.body.as_str()))
        },
        Err(e) => Err(e),
    }
}

/// Whether `r` is what a request for an update comes to: nothing where the reply says that nothing
/// changed, the reply where it is a success, or what went wrong.
pub open spec fn update_of(
    reply: Result<BtnHttpResponse, String>,
    r: Result<Option<BtnHttpResponse>, String>,
) -> bool {
    match reply {
        Err(e) => r == Err::<Option<BtnHttpResponse>, String>(e),
        Ok(response) => if response.status == 204 {
            r == Ok::<Option<BtnHttpResponse>, String>(None)
        } else if response.successful() {
            r == Ok::<Option<BtnHttpResponse>, String>(Some(response))
        } else {
            r matches Err(e) && e@ == http_error(response.status, response.body@)
        },
    }
}

/// What a request for an update comes to.
pub fn expect_update(reply: Result<BtnHttpResponse, String>) -> (r: Result<
    Option<BtnHttpResponse>,
    String,
>)
    ensures
        update_of(reply, r),
{
    match reply {
        Ok(response) => if response.is_no_content() {
            Ok(None)
        } else if response.is_successful() {
            Ok(Some(response))
        } else {
            Err(http_error_text(response.status, response.body.as_str()))
        },
        Err(e) => Err(e),
    }
}

/// Whether a text is the version that a reply gives its content: that of the header, or `unknown`.
pub open spec fn version_of(response: BtnHttpResponse, version: Seq<char>) -> bool {
    ||| exists|key: Seq<char>|
        {
            &&& #[trigger] response.headers@.contains_key(key)
            &&& same_header(key, HEADER_X_BTN_CONTENT_VERSION@)
            &&& version == response.headers@[key]@
            &&& forall|other: Seq<char>| #[trigger]
                response.headers@.contains_key(other) && same_header(
                    other,
                    HEADER_X_BTN_CONTENT_VERSION@,
                ) ==> text_le(key, other)
        }
    ||| version == "unknown"@ && forall|key: Seq<char>| #[trigger]
        response.headers@.contains_key(key) ==> !same_header(key, HEADER_X_BTN_CONTENT_VERSION@)
}

/// The version that a reply gives its content.
pub fn content_version(response: &BtnHttpResponse) -> (version: String)
    ensures
        version_of(*response, version@),
{
    match response.header(HEADER_X_BTN_CONTENT_VERSION) {
        Some(version) => version.clone(),
        None => "unknown".to_string(),
    }
}

/// How a reply to the request for the configuration is to be taken.
pub open spec fn config_reply_of<C: Fn(&String) -> Result<BtnConfigResponse, String>>(
    parse: C,
    reply: Result<BtnHttpResponse, String>,
    r: ConfigReply,
) -> bool {
    match reply {
        Err(e) => r == ConfigReply::NoReply(e),
        Ok(response) => if !response.successful() {
            r == (ConfigReply::Refused { status: response.status, body: response.body })
        } else {
            match r {
                ConfigReply::Config(c) => parse.ensures(
                    (&response.body,),
                    Ok::<BtnConfigResponse, String>(c),
                ),
                ConfigReply::Unreadable(e) => parse.ensures(
                    (&response.body,),
                    Err::<BtnConfigResponse, String>(e),
                ),
                _ => false,
            }
        },
    }
}

/// How a reply to the request for the configuration is to be taken.
pub fn read_config_reply<C: Fn(&String) -> Result<BtnConfigResponse, String>>(
    parse: C,
    reply: Result<BtnHttpResponse, String>,
) -> (r: ConfigReply)
    requires
        reads_any(parse),
    ensures
        config_reply_of(parse, reply, r),
{
    match reply {
        Ok(response) => if !response.is_successful() {
            ConfigReply::Refused { status: response.status, body: response.body }
        } else {
            match parse(&response.body) {
                Ok(config) => ConfigReply::Config(config),
                Err(e) => ConfigReply::Unreadable(e),
            }
        },
        Err(e) => ConfigReply::NoReply(e),
    }
}

/// The address of an update since some version.
pub open spec fn rev_url(endpoint: Seq<char>, rev: Seq<char>) -> Seq<char> {
    with_param(endpoint, "rev"@, rev)
}

/// A report of compressed bytes, before any proof of work.
pub open spec fn report_view(
    config: BtnNetworkConfig,
    endpoint: Seq<char>,
    body: Seq<u8>,
) -> RequestView {
    let r = with_header(post_view(endpoint, body), "User-Agent"@, BTN_USER_AGENT@);
    let r = with_header(r, "Content-Type"@, "application/json"@);
    authorised(config, with_header(r, "Content-Encoding"@, "gzip"@))
}

/// A heartbeat, before any proof of work. That of the default interface carries no account.
pub open spec fn heartbeat_view(
    config: BtnNetworkConfig,
    endpoint: Seq<char>,
    ifaddr: Seq<char>,
) -> RequestView {
    let body = vstd::utf8::encode_utf8(heartbeat_text(ifaddr));
    let r = with_header(post_view(endpoint, body), "User-Agent"@, BTN_USER_AGENT@);
    let r = with_header(r, "Content-Type"@, "application/json"@);
    if ifaddr == "default"@ {
        r
    } else {
        authorised(config, r)
    }
}

/// Whether a heartbeat for an interface may end so: it succeeds if the reply is a success.
pub open spec fn beats<H: BtnHttpClient, M, P: Fn(&String) -> Option<PowCaptchaData>>(
    n: BtnNetwork<H, M>,
    parse: P,
    ability: BtnAbility,
    ifaddr: Seq<char>,
    ok: bool,
) -> bool {
    exists|reply: Result<BtnHttpResponse, String>|
        {
            &&& #[trigger] exchanged(
                n,
                parse,
                ability.pow_captcha,
                "heartbeat"@,
                heartbeat_view(n.config, ability.endpoint@, ifaddr),
                reply,
            )
            &&& ok == (reply is Ok && reply->Ok_0.successful())
        }
}

/// The first ability of a kind.
pub open spec fn is_first(abilities: Seq<BtnAbility>, kind: BtnAbilityKind, i: int) -> bool {
    &&& 0 <= i < abilities.len()
    &&& abilities[i].kind == kind
    &&& forall|k: int| 0 <= k < i ==> (#[trigger] abilities[k]).kind != kind
}

/// Whether no ability is of a kind.
pub open spec fn none_of(abilities: Seq<BtnAbility>, kind: BtnAbilityKind) -> bool {
    forall|k: int| 0 <= k < abilities.len() ==> (#[trigger] abilities[k]).kind != kind
}

/// The first ability of a kind.
pub fn first_ability(abilities: &Vec<BtnAbility>, kind: BtnAbilityKind) -> (r: Option<usize>)
    ensures
        match r {
            Some(i) => is_first(abilities@, kind, i as int),
            None => none_of(abilities@, kind),
        },
{
    let mut i: usize = 0;
    while i < abilities.len()
        invariant
            i <= abilities.len(),
            forall|k: int| 0 <= k < i ==> (#[trigger] abilities@[k]).kind != kind,
        decreases abilities.len() - i,
    {
        if abilities[i].kind == kind {
            return Some(i);
        }
        i += 1;
    }
    None
}

/// The kind of the ability that keeps a list of addresses.
pub open spec fn list_kind(list: BtnIpAbility) -> BtnAbilityKind {
    match list {
        BtnIpAbility::AllowList => BtnAbilityKind::IpAllowList,
        BtnIpAbility::DenyList => BtnAbilityKind::IpDenyList,
    }
}

/// Kept texts with a list of addresses and its version.
pub open spec fn with_list(
    data: Map<Seq<char>, Seq<char>>,
    list: BtnIpAbility,
    text: Seq<char>,
    version: Seq<char>,
) -> Map<Seq<char>, Seq<char>> {
    match list {
        BtnIpAbility::AllowList => data.insert(CACHE_KEY_IP_ALLOWLIST_VERSION@, version).insert(
            CACHE_KEY_IP_ALLOWLIST_VALUE@,
            text,
        ),
        BtnIpAbility::DenyList => data.insert(CACHE_KEY_IP_DENYLIST_VERSION@, version).insert(
            CACHE_KEY_IP_DENYLIST_VALUE@,
            text,
        ),
    }
}

impl<H: BtnHttpClient, M: BtnMetadataStore> BtnNetwork<H, M> {
    /// A request for a document with the client's account.
    pub fn request(&self, url: &str) -> (r: BtnHttpRequest)
        ensures
            r@ == authorised(self.config, get_view(url@)),
    {
        apply_auth(&self.config, BtnHttpRequest::get(url))
    }

    /// Asks for a challenge and adds its solution to a request.
    pub fn gather_and_solve_captcha<P: Fn(&String) -> Option<PowCaptchaData>>(
        &self,
        request: BtnHttpRequest,
        pow_type: &str,
        parse: P,
    ) -> (sent: BtnHttpRequest)
        requires
            reads_any(parse),
        ensures
            proven(*self, parse, pow_type@, request@, sent@),
    {
        let endpoint = match &self.pow_endpoint {
            Some(endpoint) => endpoint,
            None => return request,
        };
        if is_blank_text(endpoint.as_str()) {
            return request;
        }
        let url = concat3(endpoint.as_str(), "?type=", pow_type);
        let reply = self.http.execute(self.request(url.as_str()));
        let ghost reply_ = reply;
        let data = match reply {
            Ok(response) => if response.is_successful() {
                parse(&response.body)
            } else {
                None
            },
            Err(_) => None,
        };
        let ghost data_ = data;
        assert(challenge_of(parse, reply_, data_));
        answer_captcha(request, data)
    }

    /// Sends a request, with a proof of work where `pow` asks for one.
    pub fn exchange<P: Fn(&String) -> Option<PowCaptchaData>>(
        &self,
        request: BtnHttpRequest,
        pow: bool,
        pow_type: &str,
        parse: P,
    ) -> (reply: Result<BtnHttpResponse, String>)
        requires
            reads_any(parse),
        ensures
            exchanged(*self, parse, pow, pow_type@, request@, reply),
    {
        let sent = if pow {
            self.gather_and_solve_captcha(request, pow_type, parse)
        } else {
            request
        };
        self.http.execute(sent)
    }

    /// Asks the server for its configuration and takes it over: whether that was done, and the
    /// changes that it calls for. A client that is switched off asks nothing.
    pub fn config_btn_network_at<C: Fn(&String) -> Result<BtnConfigResponse, String>>(
        &mut self,
        parse: C,
        now_ms: i64,
    ) -> (r: (bool, Vec<ModuleChange>))
        requires
            reads_any(parse),
        ensures
            configured(*old(self), parse, now_ms, *final(self), r.0, change_views(r.1@)),
    {
        let mut changes: Vec<ModuleChange> = Vec::new();
        assert(change_views(changes@) =~= Seq::empty());
        if !self.config.is_active() {
            return (false, changes);
        }
        let ghost start = *self;
        changes.push(ModuleChange::AllowScript(self.config.allow_script_execute));
        let request = self.request(self.config.config_url.as_str());
        let answer = self.http.execute(request);
        let ghost answer_ = answer;
        let reply = read_config_reply(parse, answer);
        let ghost reply_ = reply;
        let clock_ms = now_millis();
        let (ok, more) = self.on_config_reply(reply, now_ms, clock_ms);
        let mut more = more;
        let ghost head = changes@;
        let ghost tail = more@;
        changes.append(&mut more);
        proof {
            assert(change_views(changes@) =~= seq![
                ChangeView::AllowScript(start.config.allow_script_execute),
            ] + change_views(tail));
            assert(start.http.answers(
                authorised(start.config, get_view(start.config.config_url@)),
                answer_,
            ));
            assert(config_reply_of(parse, answer_, reply_));
            assert(handshake(start, reply_, now_ms, clock_ms, *self, ok, change_views(tail)));
        }
        (ok, changes)
    }

    /// Asks the server for its configuration now.
    pub fn config_btn_network<C: Fn(&String) -> Result<BtnConfigResponse, String>>(
        &mut self,
        parse: C,
    ) -> (r: (bool, Vec<ModuleChange>))
        requires
            reads_any(parse),
        ensures
            exists|now_ms: i64| #[trigger]
                configured(*old(self), parse, now_ms, *final(self), r.0, change_views(r.1@)),
    {
        let now_ms = now_millis();
        self.config_btn_network_at(parse, now_ms)
    }

    /// Makes the handshake where it is due: whether the client is ready, and the changes that a new
    /// handshake calls for.
    pub fn check_if_need_retry_config_at<C: Fn(&String) -> Result<BtnConfigResponse, String>>(
        &mut self,
        parse: C,
        now_ms: i64,
    ) -> (r: (bool, Vec<ModuleChange>))
        requires
            reads_any(parse),
        ensures
            match old(self).retry_decision(now_ms) {
                RetryDecision::Attempt => configured(
                    *old(self),
                    parse,
                    now_ms,
                    *final(self),
                    r.0,
                    change_views(r.1@),
                ),
                d => {
                    &&& r.0 == (d == RetryDecision::Done)
                    &&& r.1@.len() == 0
                    &&& *final(self) == (BtnNetwork {
                        config_success: old(self).config_success && d != RetryDecision::Off,
                        ..*old(self)
                    })
                },
            },
    {
        match self.decide_retry(now_ms) {
            RetryDecision::Attempt => self.config_btn_network_at(parse, now_ms),
            RetryDecision::Done => (true, Vec::new()),
            _ => (false, Vec::new()),
        }
    }

    /// Makes the handshake where it is due now.
    pub fn check_if_need_retry_config<C: Fn(&String) -> Result<BtnConfigResponse, String>>(
        &mut self,
        parse: C,
    ) -> (r: (bool, Vec<ModuleChange>))
        requires
            reads_any(parse),
        ensures
            !old(self).config.active() ==> {
                &&& !r.0
                &&& r.1@.len() == 0
                &&& *final(self) == (BtnNetwork { config_success: false, ..*old(self) })
            },
            old(self).config.active() && old(self).config_success ==> {
                &&& r.0
                &&& r.1@.len() == 0
                &&& *final(self) == *old(self)
            },
            old(self).config.active() && !old(self).config_success ==> {
                ||| !r.0 && r.1@.len() == 0 && *final(self) == *old(self)
                ||| exists|now_ms: i64|
                    now_ms > old(self).next_config_attempt_ms && #[trigger] configured(
                        *old(self),
                        parse,
                        now_ms,
                        *final(self),
                        r.0,
                        change_views(r.1@),
                    )
            },
    {
        let now_ms = now_millis();
        self.check_if_need_retry_config_at(parse, now_ms)
    }

    /// Reports bytes of JSON, compressed.
    pub fn post_gzip_report<P: Fn(&String) -> Option<PowCaptchaData>>(
        &self,
        ability: &BtnAbility,
        json: &[u8],
        parse: P,
    ) -> (r: Result<(), String>)
        requires
            reads_any(parse),
        ensures
            gzip(json@) is None ==> r is Err,
            gzip(json@) matches Some(body) ==> exists|reply: Result<BtnHttpResponse, String>|
                {
                    &&& #[trigger] exchanged(
                        *self,
                        parse,
                        ability.pow_captcha,
                        ability.kind.pow_text(),
                        report_view(self.config, ability.endpoint@, body),
                        reply,
                    )
                    &&& match r {
                        Ok(_) => reply is Ok && reply->Ok_0.successful(),
                        Err(e) => body_of(reply, Err(e)),
                    }
                },
    {
        let body = match gzip_bytes(json) {
            Some(body) => body,
            None => return Err("unable to compress the report".to_string()),
        };
        let request = BtnHttpRequest::post(ability.endpoint.as_str(), body);
        let request = request.header("User-Agent", BTN_USER_AGENT);
        let request = request.header("Content-Type", "application/json");
        let request = request.header("Content-Encoding", "gzip");
        let request = apply_auth(&self.config, request);
        let reply = self.exchange(request, ability.pow_captcha, ability.kind.pow_type(), parse);
        match expect_success(reply) {
            Ok(_) => Ok(()),
            Err(e) => Err(e),
        }
    }

    /// Sends a heartbeat for an interface: whether the reply was a success.
    pub fn send_heartbeat<P: Fn(&String) -> Option<PowCaptchaData>>(
        &self,
        ability: &BtnAbility,
        ifaddr: &str,
        parse: P,
    ) -> (ok: bool)
        requires
            reads_any(parse),
        ensures
            beats(*self, parse, *ability, ifaddr@, ok),
    {
        let text = heartbeat_body(ifaddr);
        let bytes = text.as_str().as_bytes();
        let body = sub_bytes(bytes, 0, bytes.len());
        assert(body@ =~= bytes@);
        let request = BtnHttpRequest::post(ability.endpoint.as_str(), body);
        let request = request.header("User-Agent", BTN_USER_AGENT);
        let request = request.header("Content-Type", "application/json");
        let request = if str_eq(ifaddr, "default") {
            request
        } else {
            apply_auth(&self.config, request)
        };
        let reply = self.exchange(request, ability.pow_captcha, "heartbeat", parse);
        match reply {
            Ok(response) => response.is_successful(),
            Err(_) => false,
        }
    }
}

/// What asking for the configuration may make of a client.
pub open spec fn configured<
    H: BtnHttpClient,
    M: BtnMetadataStore,
    C: Fn(&String) -> Result<BtnConfigResponse, String>,
>(
    before: BtnNetwork<H, M>,
    parse: C,
    now_ms: i64,
    after: BtnNetwork<H, M>,
    ok: bool,
    changes: Seq<ChangeView>,
) -> bool {
    if !before.config.active() {
        !ok && changes == Seq::<ChangeView>::empty() && after == before
    } else {
        exists|
            answer: Result<BtnHttpResponse, String>,
            reply: ConfigReply,
            clock_ms: i64,
            more: Seq<ChangeView>,
        |
            {
                &&& #[trigger] before.http.answers(
                    authorised(before.config, get_view(before.config.config_url@)),
                    answer,
                )
                &&& config_reply_of(parse, answer, reply)
                &&& #[trigger] handshake(before, reply, now_ms, clock_ms, after, ok, more)
                &&& changes == seq![ChangeView::AllowScript(before.config.allow_script_execute)]
                    + more
            }
    }
}

// ------------------------------------------------------------------ laws of requests
/// A request is signed behind the headers that it has: with the name of the program, the type of
/// its content, the client's identifier and secret under both names of each and together, and with
/// the installation where the client is anonymous.
pub proof fn requests_are_signed(config: BtnNetworkConfig, r: RequestView)
    ensures
        ({
            let s = authorised(config, r);
            let n = r.headers.len() as int;
            &&& s.url == r.url && s.method == r.method && s.body == r.body
            &&& s.headers.take(n) == r.headers
            &&& s.headers.len() == n + (if config.anonymous() { 8int } else { 7int })
            &&& s.headers[n] == ("User-Agent"@, "PeerBanHelper-RS"@)
            &&& s.headers[n + 1] == ("Content-Type"@, "application/json"@)
            &&& s.headers[n + 2] == ("BTN-AppID"@, config.app_id@)
            &&& s.headers[n + 3] == ("BTN-AppSecret"@, config.app_secret@)
            &&& s.headers[n + 4] == ("X-BTN-AppID"@, config.app_id@)
            &&& s.headers[n + 5] == ("X-BTN-AppSecret"@, config.app_secret@)
            &&& s.headers[n + 6] == (
                "Authentication"@,
                "Bearer "@ + config.app_id@ + "@"@ + config.app_secret@,
            )
            &&& config.anonymous() ==> s.headers[n + 7] == (
                "X-BTN-InstallationID"@,
                config.installation_id@,
            )
        }),
{
    assert(authorised(config, r).headers.take(r.headers.len() as int) =~= r.headers);
}

/// A solution is handed in behind all other headers, with the id of its task and in base 64; where
/// none was found the request stays.
pub proof fn solutions_are_handed_in(
    r: RequestView,
    id: Seq<char>,
    nonce: Seq<u8>,
    endpoint: Seq<char>,
    pow_type: Seq<char>,
)
    ensures
        with_found(r, id, Some(nonce)).headers == r.headers + seq![
            ("X-BTN-PowID"@, id),
            ("X-BTN-PowSolution"@, b64(nonce)),
        ],
        with_found(r, id, Some(nonce)).body == r.body,
        with_found(r, id, Some(nonce)).url == r.url,
        with_found(r, id, None) == r,
        captcha_url(endpoint, pow_type) == endpoint + "?type="@ + pow_type,
{
}

/// A report goes to its endpoint as compressed JSON and signed; a heartbeat of one interface is
/// signed and tells the address, and one of no interface in particular is not signed.
pub proof fn reports_are_posted(
    config: BtnNetworkConfig,
    endpoint: Seq<char>,
    body: Seq<u8>,
    ifaddr: Seq<char>,
)
    ensures
        ({
            let r = report_view(config, endpoint, body);
            &&& r.url == endpoint
            &&& r.method == BtnHttpMethod::Post
            &&& r.body == Some(body)
            &&& r.headers[0] == ("User-Agent"@, "PeerBanHelper-RS"@)
            &&& r.headers[1] == ("Content-Type"@, "application/json"@)
            &&& r.headers[2] == ("Content-Encoding"@, "gzip"@)
            &&& r.headers.len() == if config.anonymous() { 11int } else { 10int }
        }),
        ({
            let r = heartbeat_view(config, endpoint, ifaddr);
            &&& r.url == endpoint
            &&& r.method == BtnHttpMethod::Post
            &&& r.body == Some(
                vstd::utf8::encode_utf8("{\"ifaddr\":"@ + json_string(ifaddr) + "}"@),
            )
            &&& r.headers[0] == ("User-Agent"@, "PeerBanHelper-RS"@)
            &&& r.headers[1] == ("Content-Type"@, "application/json"@)
            &&& ifaddr == "default"@ ==> r.headers.len() == 2
            &&& ifaddr != "default"@ ==> r.headers.len() == if config.anonymous() {
                10int
            } else {
                9int
            }
        }),
{
}

/// The replies 200 to 299 succeed; of an update 204 says that there is none; any other reply is an
/// error that tells its code and its text, and a request without a reply is its own error.
pub proof fn codes_decide_the_answer(
    response: BtnHttpResponse,
    e: String,
    r: Result<BtnHttpResponse, String>,
    u: Result<Option<BtnHttpResponse>, String>,
)
    requires
        body_of(Ok(response), r),
        update_of(Ok(response), u),
    ensures
        200 <= response.status <= 299 ==> r == Ok::<BtnHttpResponse, String>(response),
        !(200 <= response.status <= 299) ==> r is Err && u is Err && r->Err_0@ == "HTTP "@
            + decimal(response.status as nat) + " - "@ + response.body@ && u->Err_0@ == "HTTP "@
            + decimal(response.status as nat) + " - "@ + response.body@,
        response.status == 204 ==> u == Ok::<Option<BtnHttpResponse>, String>(None),
        200 <= response.status <= 299 && response.status != 204 ==> u == Ok::<
            Option<BtnHttpResponse>,
            String,
        >(Some(response)),
        body_of(Err(e), Err(e)),
        update_of(Err(e), Err(e)),
{
}

/// A fetched list is kept under the keys of its own kind, the other list stays as it is.
pub proof fn lists_are_kept_apart(
    data: Map<Seq<char>, Seq<char>>,
    text: Seq<char>,
    version: Seq<char>,
)
    ensures
        ({
            let allow = with_list(data, BtnIpAbility::AllowList, text, version);
            let deny = with_list(data, BtnIpAbility::DenyList, text, version);
            &&& cached_change(BtnAbilityKind::IpAllowList, allow) == Some(
                ChangeView::AllowList(text, version),
            )
            &&& cached_change(BtnAbilityKind::IpDenyList, deny) == Some(
                ChangeView::DenyList(text, version),
            )
            &&& cached_change(BtnAbilityKind::IpDenyList, allow) == cached_change(
                BtnAbilityKind::IpDenyList,
                data,
            )
            &&& cached_change(BtnAbilityKind::IpAllowList, deny) == cached_change(
                BtnAbilityKind::IpAllowList,
                data,
            )
        }),
        list_kind(BtnIpAbility::AllowList) == BtnAbilityKind::IpAllowList,
        list_kind(BtnIpAbility::DenyList) == BtnAbilityKind::IpDenyList,
{
    reveal_strlit("btn.ability.ip_allowlist.cache.version");
    reveal_strlit("btn.ability.ip_allowlist.cache.value");
    reveal_strlit("btn.ability.ip_denylist.cache.version");
    reveal_strlit("btn.ability.ip_denylist.cache.value");
    assert("btn.ability.ip_allowlist.cache.version"@.len() == 38);
    assert("btn.ability.ip_allowlist.cache.value"@.len() == 36);
    assert("btn.ability.ip_denylist.cache.version"@.len() == 37);
    assert("btn.ability.ip_denylist.cache.value"@.len() == 35);
}

/// Without a proof of work, or without a place to get its task from, a request is sent as it is.
pub proof fn requests_without_a_task_go_as_they_are<
    H: BtnHttpClient,
    M,
    P: Fn(&String) -> Option<PowCaptchaData>,
>(
    n: BtnNetwork<H, M>,
    parse: P,
    pow: bool,
    pow_type: Seq<char>,
    r: RequestView,
    reply: Result<BtnHttpResponse, String>,
)
    requires
        !pow || n.pow_endpoint is None || blank(n.pow_endpoint->0@),
    ensures
        exchanged(n, parse, pow, pow_type, r, reply) == n.http.answers(r, reply),
{
    if n.http.answers(r, reply) {
        assert(exchanged(n, parse, pow, pow_type, r, reply));
    }
}

/// A task that cannot be read, or whose algorithm is not known, is left unanswered; the answer to
/// any other is its id and a nonce whose digest behind the challenge has the zero bits asked for, or
/// nothing.
pub proof fn answers_solve_their_task(d: PowCaptchaData, r: RequestView, sent: RequestView)
    requires
        solved(Some(d), r, sent),
    ensures
        b64_bytes_of(d.challenge_base64@) is None || algorithm_of(d.algorithm@) is None ==> sent
            == r,
        sent != r ==> exists|nonce: Seq<u8>| {
            &&& #[trigger] with_found(r, d.id@, Some(nonce)) == sent
            &&& solves(
                algorithm_of(d.algorithm@)->0,
                b64_bytes_of(d.challenge_base64@)->0,
                d.difficulty_bits as int,
                nonce,
            )
        },
        forall|other: RequestView| solved(None, r, other) == (other == r),
{
    if b64_bytes_of(d.challenge_base64@) is Some && algorithm_of(d.algorithm@) is Some {
        let algorithm = algorithm_of(d.algorithm@)->0;
        let challenge = b64_bytes_of(d.challenge_base64@)->0;
        let bits = d.difficulty_bits as int;
        let limit = POW_MAX_ITERATIONS as int;
        assert(exists|start: u64, found: Option<Seq<u8>>|
            #[trigger] search_ends(algorithm, challenge, bits, start, limit, found) && sent
                == with_found(r, d.id@, found));
        let (start, found) = choose|start: u64, found: Option<Seq<u8>>|
            #[trigger] search_ends(algorithm, challenge, bits, start, limit, found) && sent
                == with_found(r, d.id@, found);
        reveal(search_ends);
        assert(search_ends(algorithm, challenge, bits, start, limit, found));
        match found {
            Some(nonce) => {
                let k = choose|k: int|
                    0 <= k < limit && nonce == bytes64(#[trigger] nonce_at(start, k)) && solves(
                        algorithm,
                        challenge,
                        bits,
                        nonce,
                    );
                assert(solves(algorithm, challenge, bits, nonce));
                assert(with_found(r, d.id@, Some(nonce)) == sent);
            },
            None => {
                assert(sent == r);
            },
        }
    }
}

/// Of a task only a good reply is read, and of a document of settings too; no reply and a refusal
/// are told as such.
pub proof fn only_good_replies_are_read<
    P: Fn(&String) -> Option<PowCaptchaData>,
    C: Fn(&String) -> Result<BtnConfigResponse, String>,
>(
    parse: P,
    read: C,
    response: BtnHttpResponse,
    e: String,
    data: Option<PowCaptchaData>,
    r: ConfigReply,
)
    ensures
        !(200 <= response.status <= 299) ==> challenge_of(parse, Ok(response), data) == (data
            is None),
        challenge_of(parse, Err(e), data) == (data is None),
        200 <= response.status <= 299 ==> challenge_of(parse, Ok(response), data)
            == parse.ensures((&response.body,), data),
        config_reply_of(read, Err(e), r) == (r == ConfigReply::NoReply(e)),
        !(200 <= response.status <= 299) ==> config_reply_of(read, Ok(response), r) == (r
            == (ConfigReply::Refused { status: response.status, body: response.body })),
{
}

/// The revision of a reply is that of its header in any case, or unknown.
pub proof fn revisions_are_told_by_the_header(
    response: BtnHttpResponse,
    key: Seq<char>,
    version: Seq<char>,
)
    requires
        version_of(response, version),
    ensures
        (forall|k: Seq<char>| #[trigger]
            response.headers@.contains_key(k) ==> ascii_lower_of(k) != ascii_lower_of(
                "X-BTN-ContentVersion"@,
            )) ==> version == "unknown"@,
        response.headers@.contains_key(key) && ascii_lower_of(key) == ascii_lower_of(
            "X-BTN-ContentVersion"@,
        ) ==> exists|k: Seq<char>| {
            &&& #[trigger] response.headers@.contains_key(k)
            &&& ascii_lower_of(k) == ascii_lower_of("X-BTN-ContentVersion"@)
            &&& version == response.headers@[k]@
        },
{
}

/// A client that is off stays as it is.
pub proof fn clients_that_are_off_stay<
    H: BtnHttpClient,
    M: BtnMetadataStore,
    C: Fn(&String) -> Result<BtnConfigResponse, String>,
>(
    before: BtnNetwork<H, M>,
    parse: C,
    now_ms: i64,
    after: BtnNetwork<H, M>,
    ok: bool,
    changes: Seq<ChangeView>,
)
    requires
        configured(before, parse, now_ms, after, ok, changes),
    ensures
        !before.config.enabled || blank(before.config.config_url@) ==> after == before && !ok
            && changes.len() == 0,
        before.config.enabled && !blank(before.config.config_url@) ==> changes.len() > 0
            && changes[0] == ChangeView::AllowScript(before.config.allow_script_execute),
{
}

} // verus!
