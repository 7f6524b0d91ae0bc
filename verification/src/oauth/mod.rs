//! OAuth 2.0 login: the authorization code flow with Google, GitHub and topsecret. The client for
//! topsecret is registered anew for every login.
use vstd::hash_map::*;
use vstd::prelude::*;
use vstd::string::*;
use vstd::utf8::*;

use crate::encoding::{
    base64url, code_challenge, holds_none, holds_only, is_unreserved, is_uuid_text, new_uuid, pair_texts, query_value,
    random_number, s256_challenge, sha256, urlencod,
};
use crate::exchange::{is_success, Answer, Fetched};
use crate::json::{
    lemma_array_view, lemma_object_view, lookup, member, member_string, member_views, parsed, pretty, text_json,
    text_member, views, Json, JsonView,
};
use crate::oauth::common::{
    a_token_request_carries_everything, an_authorization_request_names_everything, answer_of, asks_for_user,
    authorization_request,
    callback_address, code_fields, credentials, documents_are_taken_whatever_their_status, info_views, quote, quoted,
    quoting_keeps_the_token, render_error, shows_user, take_credentials, the_granted_token_asks_for_the_user, unquoted,
    user_answered, write_authorization, write_callback, write_code_fields, AnswerView, CallbackQuery, LoginResult,
    LoginStep, PendingLogin, ProviderConfig, ProviderInfo, UserShape,
};
use crate::text::{
    contains_part, decimal, decimal_text, joined, lemma_contains_between, lemma_contains_longer, opt_text, same_text,
    trim, trim_end_char, trimmed, trimmed_end,
};

pub mod common;
pub mod fixed;

verus! {

// -- Providers.

/// The providers.
#[derive(Debug, Clone, Copy, PartialEq, Eq, Structural, Hash)]
pub enum Provider {
    Google,
    GitHub,
    TopSecret,
}

impl Provider {
    /// The name of the provider in paths.
    pub open spec fn slug_text(self) -> Seq<char> {
        match self {
            Provider::Google => "google"@,
            Provider::GitHub => "github"@,
            Provider::TopSecret => "topsecret"@,
        }
    }

    /// What the provider's users are asked to agree to.
    pub open spec fn scopes_text(self) -> Seq<char> {
        match self {
            Provider::Google => "openid email profile"@,
            Provider::GitHub => "read:user user:email"@,
            Provider::TopSecret => "openid profile email read write"@,
        }
    }

    /// The fixed endpoints of a provider: for the authorization, the token and the user. Those of
    /// topsecret are configured.
    pub open spec fn endpoints(self) -> (Seq<char>, Seq<char>, Seq<char>) {
        match self {
            Provider::Google => (
                "https://accounts.google.com/o/oauth2/v2/auth"@,
                "https://oauth2.googleapis.com/token"@,
                "https://www.googleapis.com/oauth2/v3/userinfo"@,
            ),
            Provider::GitHub => (
                "https://github.com/login/oauth/authorize"@,
                "https://github.com/login/oauth/access_token"@,
                "https://api.github.com/user"@,
            ),
            Provider::TopSecret => (""@, ""@, ""@),
        }
    }

    /// How the provider describes its users.
    pub open spec fn shape(self) -> UserShape {
        match self {
            Provider::GitHub => UserShape::Avatar,
            _ => UserShape::Picture,
        }
    }

    /// The provider with that name.
    pub fn from_slug(s: &str) -> (r: Option<Self>)
        ensures
            r == provider_named(s@),
    {
        if same_text(s, "google") {
            Some(Provider::Google)
        } else if same_text(s, "github") {
            Some(Provider::GitHub)
        } else if same_text(s, "topsecret") {
            Some(Provider::TopSecret)
        } else {
            None
        }
    }

    /// The name of the provider in paths.
    pub fn slug(&self) -> (r: &'static str)
        ensures
            r@ == self.slug_text(),
    {
        match self {
            Provider::Google => "google",
            Provider::GitHub => "github",
            Provider::TopSecret => "topsecret",
        }
    }

    /// What the provider is called.
    pub fn display_name(&self) -> (r: &'static str)
        ensures
            r@ == self.slug_text(),
    {
        match self {
            Provider::Google => "google",
            Provider::GitHub => "github",
            Provider::TopSecret => "topsecret",
        }
    }

    /// The fixed authorization endpoint.
    pub fn auth_url(&self) -> (r: &'static str)
        ensures
            r@ == self.endpoints().0,
    {
        match self {
            Provider::Google => "https://accounts.google.com/o/oauth2/v2/auth",
            Provider::GitHub => "https://github.com/login/oauth/authorize",
            Provider::TopSecret => "",
        }
    }

    /// The fixed token endpoint.
    pub fn token_url(&self) -> (r: &'static str)
        ensures
            r@ == self.endpoints().1,
    {
        match self {
            Provider::Google => "https://oauth2.googleapis.com/token",
            Provider::GitHub => "https://github.com/login/oauth/access_token",
            Provider::TopSecret => "",
        }
    }

    /// The fixed endpoint for the user.
    pub fn userinfo_url(&self) -> (r: &'static str)
        ensures
            r@ == self.endpoints().2,
    {
        match self {
            Provider::Google => "https://www.googleapis.com/oauth2/v3/userinfo",
            Provider::GitHub => "https://api.github.com/user",
            Provider::TopSecret => "",
        }
    }

    /// What the provider's users are asked to agree to.
    pub fn scopes(&self) -> (r: &'static str)
        ensures
            r@ == self.scopes_text(),
    {
        match self {
            Provider::Google => "openid email profile",
            Provider::GitHub => "read:user user:email",
            Provider::TopSecret => "openid profile email read write",
        }
    }

    fn user_shape(&self) -> (r: UserShape)
        ensures
            r == self.shape(),
    {
        match self {
            Provider::GitHub => UserShape::Avatar,
            _ => UserShape::Picture,
        }
    }
}

/// The provider with that name in paths.
pub open spec fn provider_named(slug: Seq<char>) -> Option<Provider> {
    if slug == "google"@ {
        Some(Provider::Google)
    } else if slug == "github"@ {
        Some(Provider::GitHub)
    } else if slug == "topsecret"@ {
        Some(Provider::TopSecret)
    } else {
        None
    }
}

/// A provider's name in paths leads back to it, and to no other.
pub proof fn slugs_name_providers(p: Provider, slug: Seq<char>)
    ensures
        provider_named(slug) == Some(p) <==> slug == p.slug_text(),
{
    reveal_strlit("google");
    reveal_strlit("github");
    reveal_strlit("topsecret");
    assert("google"@[1] != "github"@[1]);
    assert("google"@.len() != "topsecret"@.len());
    assert("github"@.len() != "topsecret"@.len());
}

// -- State.

/// What the environment says about the providers.
#[derive(Debug)]
pub struct OAuthEnv {
    pub google_client_id: Option<String>,
    pub google_client_secret: Option<String>,
    pub github_client_id: Option<String>,
    pub github_client_secret: Option<String>,
    pub topsecret_oauth2_url: Option<String>,
}

/// A login that the provider has yet to send back.
#[derive(Debug)]
pub struct PendingAuth {
    pub provider: Provider,
    /// The verifier whose challenge the provider was given.
    pub code_verifier: Option<String>,
    /// The client that was registered for this login.
    pub topsecret_config: Option<ProviderConfig>,
}

/// A user who is logged in.
#[derive(Debug)]
pub struct SessionInfo {
    pub provider: Provider,
    pub access_token: String,
}

/// The state of the logins.
pub struct OAuthState {
    pub google: Option<ProviderConfig>,
    pub github: Option<ProviderConfig>,
    /// Issuer base URL of topsecret, which is available only with it.
    pub topsecret_issuer_base: Option<String>,
    pub pending: StringHashMap<PendingAuth>,
    pub sessions: StringHashMap<SessionInfo>,
    pub base_url: String,
}

/// Builds the state from the environment. Google and GitHub need both halves of their credentials.
pub fn build_state(base_url: &str, env: OAuthEnv) -> (state: OAuthState)
    ensures
        state.google == credentials(env.google_client_id, env.google_client_secret),
        state.github == credentials(env.github_client_id, env.github_client_secret),
        opt_text(state.topsecret_issuer_base) == (match env.topsecret_oauth2_url {
            Some(url) => Some(trimmed_end(url@, '/')),
            None => None,
        }),
        state.pending@ == Map::<Seq<char>, PendingAuth>::empty(),
        state.sessions@ == Map::<Seq<char>, SessionInfo>::empty(),
        state.base_url@ == base_url@,
{
    let topsecret_issuer_base = match &env.topsecret_oauth2_url {
        Some(url) => Some(trim_end_char(url.as_str(), '/')),
        None => None,
    };
    OAuthState {
        google: take_credentials(env.google_client_id, env.google_client_secret),
        github: take_credentials(env.github_client_id, env.github_client_secret),
        topsecret_issuer_base,
        pending: StringHashMap::new(),
        sessions: StringHashMap::new(),
        base_url: base_url.to_owned(),
    }
}

// -- Pages.

/// A line about an environment variable: how many bytes it has.
pub open spec fn debug_line(name: Seq<char>, value: Option<Seq<char>>) -> Seq<char> {
    name + ": "@ + decimal(
        match value {
            Some(v) => vstd::utf8::encode_utf8(v).len(),
            None => 0,
        },
    ) + " chars"@
}

/// Writes a line about an environment variable.
pub fn write_debug_line(name: &str, value: &Option<String>) -> (r: String)
    ensures
        r@ == debug_line(name@, opt_text(*value)),
{
    let size: usize = match value {
        Some(v) => v.as_str().as_bytes().len(),
        None => 0,
    };
    let mut r = joined(name, ": ");
    r.append(decimal_text(size as u64).as_str());
    r.append(" chars");
    r
}

/// The page that tells which environment variables are set, without their values.
pub fn login_debug(env: &OAuthEnv) -> (r: String)
    ensures
        r@ == debug_line("GOOGLE_CLIENT_ID"@, opt_text(env.google_client_id)) + "\n"@ + debug_line(
            "GOOGLE_CLIENT_SECRET"@,
            opt_text(env.google_client_secret),
        ) + "\n"@ + debug_line("GITHUB_CLIENT_ID"@, opt_text(env.github_client_id)) + "\n"@ + debug_line(
            "GITHUB_CLIENT_SECRET"@,
            opt_text(env.github_client_secret),
        ) + "\n"@ + debug_line("TOPSECRET_OAUTH2_URL"@, opt_text(env.topsecret_oauth2_url)),
{
    let mut r = write_debug_line("GOOGLE_CLIENT_ID", &env.google_client_id);
    r.append("\n");
    r.append(write_debug_line("GOOGLE_CLIENT_SECRET", &env.google_client_secret).as_str());
    r.append("\n");
    r.append(write_debug_line("GITHUB_CLIENT_ID", &env.github_client_id).as_str());
    r.append("\n");
    r.append(write_debug_line("GITHUB_CLIENT_SECRET", &env.github_client_secret).as_str());
    r.append("\n");
    r.append(write_debug_line("TOPSECRET_OAUTH2_URL", &env.topsecret_oauth2_url).as_str());
    r
}

/// What an answer to the browser is.
#[derive(Debug)]
pub enum StartStep {
    /// A plain text with a status.
    Reply { status: u16, text: String },
    /// Send the browser to that URL.
    Redirect(String),
    /// Register a client first.
    Register { url: String, body: Json },
}

impl StartStep {
    /// The browser is told that.
    pub open spec fn replies(self, code: u16, message: Seq<char>) -> bool {
        self matches StartStep::Reply { status, text } && status == code && text@ == message
    }
}

/// The document that registers a client.
pub open spec fn registration(redirect_uri: Seq<char>, scope: Seq<char>) -> JsonView {
    JsonView::Object(
        seq![
            ("redirect_uris"@, JsonView::Array(seq![JsonView::Text(redirect_uri)])),
            ("scope"@, JsonView::Text(scope)),
        ],
    )
}

fn write_registration(redirect_uri: &str, scope: &str) -> (j: Json)
    ensures
        j@ == registration(redirect_uri@, scope@),
{
    let mut uris: Vec<Json> = Vec::new();
    uris.push(text_json(redirect_uri));
    let ghost listed = views(uris@);
    let list = Json::Array(uris);
    proof {
        lemma_array_view(list);
        assert(listed =~= seq![JsonView::Text(redirect_uri@)]);
    }
    let mut members: Vec<(String, Json)> = Vec::new();
    members.push(("redirect_uris".to_owned(), list));
    members.push(("scope".to_owned(), text_json(scope)));
    let ghost all = member_views(members@);
    let j = Json::Object(members);
    proof {
        lemma_object_view(j);
        assert(all =~= registration(redirect_uri@, scope@)->Object_0);
    }
    j
}

/// The client in the answer to a registration; a client may have no secret.
pub open spec fn registered_client(fetched: Fetched) -> Option<(Seq<char>, Seq<char>)> {
    match fetched.usable() {
        Some(json) => match member_string(json, "client_id"@) {
            Some(id) => Some(
                (
                    id,
                    match member_string(json, "client_secret"@) {
                        Some(secret) => secret,
                        None => Seq::empty(),
                    },
                ),
            ),
            None => None,
        },
        None => None,
    }
}

/// Reads the answer to a registration.
pub fn register_dynamic_client(fetched: &Fetched) -> (r: Option<ProviderConfig>)
    ensures
        match registered_client(*fetched) {
            Some((id, secret)) => r matches Some(c) && c.client_id@ == id && c.client_secret@ == secret,
            None => r is None,
        },
{
    match fetched.usable_json() {
        Some(json) => match json.get_str("client_id") {
            Some(client_id) => {
                let client_secret = match json.get_str("client_secret") {
                    Some(secret) => secret,
                    None => {
                        let none = String::new();
                        assert(none@ =~= Seq::empty());
                        none
                    },
                };
                Some(ProviderConfig { client_id, client_secret })
            },
            None => None,
        },
        None => None,
    }
}

/// The resource that a token of topsecret is for.
pub const TOPSECRET_RESOURCE: &'static str = "https://mcp.dima.ai";

/// What is appended to the authorization request of a provider.
pub open spec fn extra_query(provider: Provider, challenge: Option<Seq<char>>) -> Seq<char> {
    (match challenge {
        Some(c) => "&code_challenge="@ + query_value(c) + "&code_challenge_method=S256"@,
        None => Seq::empty(),
    }) + (match provider {
        Provider::TopSecret => "&resource="@ + query_value(TOPSECRET_RESOURCE@),
        Provider::Google => "&prompt=consent"@,
        Provider::GitHub => Seq::empty(),
    })
}

/// The characters of a verifier.
pub const VERIFIER_CHARS: &'static str = "ABCDEFGHIJKLMNOPQRSTUVWXYZabcdefghijklmnopqrstuvwxyz0123456789-._~";

/// The verifier that numbers give: one character for each.
pub open spec fn verifier_of(numbers: Seq<usize>) -> Seq<char> {
    Seq::new(numbers.len(), |i: int| VERIFIER_CHARS@[numbers[i] as int % 66])
}

/// Whether a text is a verifier: sixty-four numbers give it.
pub open spec fn is_verifier(text: Seq<char>) -> bool {
    exists|numbers: Seq<usize>| numbers.len() == 64 && text == #[trigger] verifier_of(numbers)
}

/// Every character of a verifier stands for itself in a query.
pub proof fn verifiers_are_unreserved(numbers: Seq<usize>)
    ensures
        forall|i: int|
            0 <= i < numbers.len() ==> {
                let c = #[trigger] verifier_of(numbers)[i];
                (c as u32) < 128 && is_unreserved(c as u8)
            },
{
    reveal_strlit("ABCDEFGHIJKLMNOPQRSTUVWXYZabcdefghijklmnopqrstuvwxyz0123456789-._~");
    assert forall|i: int| 0 <= i < numbers.len() implies {
        let c = #[trigger] verifier_of(numbers)[i];
        (c as u32) < 128 && is_unreserved(c as u8)
    } by {
        let at = numbers[i] as int % 66;
        assert(0 <= at < 66);
        assert(verifier_of(numbers)[i] == VERIFIER_CHARS@[at]);
    }
}

/// Makes a verifier of numbers.
pub fn verifier_from(numbers: &Vec<usize>) -> (r: String)
    ensures
        r@ == verifier_of(numbers@),
{
    proof {
        reveal_strlit("ABCDEFGHIJKLMNOPQRSTUVWXYZabcdefghijklmnopqrstuvwxyz0123456789-._~");
    }
    let set = crate::text::chars_of(VERIFIER_CHARS);
    let mut r = String::new();
    let mut i: usize = 0;
    assert(r@ =~= Seq::empty());
    while i < numbers.len()
        invariant
            i <= numbers@.len(),
            set@ == VERIFIER_CHARS@,
            set@.len() == 66,
            r@ == verifier_of(numbers@).take(i as int),
        decreases numbers@.len() - i,
    {
        r.push(set[numbers[i] % 66]);
        assert(r@ =~= verifier_of(numbers@).take(i + 1));
        i = i + 1;
    }
    assert(verifier_of(numbers@).take(i as int) =~= verifier_of(numbers@));
    r
}

/// A fresh verifier of sixty-four characters, and its challenge by method S256.
pub fn pkce_pair() -> (r: (String, String))
    ensures
        r.0@.len() == 64,
        is_verifier(r.0@),
        r.1@ == s256_challenge(r.0@),
{
    let mut numbers: Vec<usize> = Vec::new();
    let mut i: usize = 0;
    while i < 64
        invariant
            i <= 64,
            numbers@.len() == i,
        decreases 64 - i,
    {
        numbers.push(random_number());
        i = i + 1;
    }
    let verifier = verifier_from(&numbers);
    let challenge = code_challenge(verifier.as_str());
    (verifier, challenge)
}

impl OAuthState {
    /// The credentials with a provider; topsecret has none of its own.
    pub open spec fn config(self, provider: Provider) -> Option<ProviderConfig> {
        match provider {
            Provider::Google => self.google,
            Provider::GitHub => self.github,
            Provider::TopSecret => None,
        }
    }

    fn find_config(&self, provider: Provider) -> (r: Option<ProviderConfig>)
        ensures
            r == self.config(provider),
    {
        let config = match provider {
            Provider::Google => &self.google,
            Provider::GitHub => &self.github,
            Provider::TopSecret => {
                return None;
            },
        };
        match config {
            Some(c) => Some(c.copy()),
            None => None,
        }
    }

    /// Whether a provider can be logged in with.
    pub open spec fn offers(self, provider: Provider) -> bool {
        self.config(provider) is Some || (provider == Provider::TopSecret && self.topsecret_issuer_base is Some)
    }

    /// The providers that can be logged in with, in their order.
    pub fn login_page(&self) -> (r: Vec<ProviderInfo>)
        ensures
            info_views(r@) == (if self.offers(Provider::Google) {
                seq![("google"@, "google"@)]
            } else {
                Seq::empty()
            }) + (if self.offers(Provider::GitHub) {
                seq![("github"@, "github"@)]
            } else {
                Seq::empty()
            }) + (if self.offers(Provider::TopSecret) {
                seq![("topsecret"@, "topsecret"@)]
            } else {
                Seq::empty()
            }),
    {
        let mut r: Vec<ProviderInfo> = Vec::new();
        if self.google.is_some() {
            let p = Provider::Google;
            r.push(ProviderInfo { slug: p.slug().to_owned(), name: p.display_name().to_owned() });
        }
        if self.github.is_some() {
            let p = Provider::GitHub;
            r.push(ProviderInfo { slug: p.slug().to_owned(), name: p.display_name().to_owned() });
        }
        if self.topsecret_issuer_base.is_some() {
            let p = Provider::TopSecret;
            r.push(ProviderInfo { slug: p.slug().to_owned(), name: p.display_name().to_owned() });
        }
        assert(info_views(r@) =~= (if self.offers(Provider::Google) {
            seq![("google"@, "google"@)]
        } else {
            Seq::empty()
        }) + (if self.offers(Provider::GitHub) {
            seq![("github"@, "github"@)]
        } else {
            Seq::empty()
        }) + (if self.offers(Provider::TopSecret) {
            seq![("topsecret"@, "topsecret"@)]
        } else {
            Seq::empty()
        }));
        r
    }

    /// Where a login of a provider comes back to, as the authorization request says it.
    pub open spec fn start_redirect(self, provider: Provider) -> Seq<char> {
        callback_address(trimmed_end(self.base_url@, '/'), provider.slug_text())
    }

    /// The authorization endpoint of a provider.
    pub open spec fn auth_endpoint(self, provider: Provider) -> Seq<char> {
        match provider {
            Provider::TopSecret => (match self.topsecret_issuer_base {
                Some(base) => base@,
                None => Seq::empty(),
            }) + "/authorize"@,
            _ => provider.endpoints().0,
        }
    }

    /// What a login leaves behind when the browser is sent to the provider, and where it is sent:
    /// `csrf` and `verifier` are the fresh values.
    pub open spec fn sends_browser(
        self,
        after: Self,
        provider: Provider,
        client_id: Seq<char>,
        registered: Option<(Seq<char>, Seq<char>)>,
        csrf: Seq<char>,
        verifier: Option<Seq<char>>,
        step: StartStep,
    ) -> bool {
        &&& after.google == self.google
        &&& after.github == self.github
        &&& after.topsecret_issuer_base == self.topsecret_issuer_base
        &&& after.sessions@ == self.sessions@
        &&& after.base_url == self.base_url
        &&& after.pending@.contains_key(csrf)
        &&& after.pending@ == self.pending@.insert(csrf, after.pending@[csrf])
        &&& after.pending@[csrf].provider == provider
        &&& opt_text(after.pending@[csrf].code_verifier) == verifier
        &&& match registered {
            Some((id, secret)) => after.pending@[csrf].topsecret_config matches Some(c) && c.client_id@ == id
                && c.client_secret@ == secret,
            None => after.pending@[csrf].topsecret_config is None,
        }
        &&& step matches StartStep::Redirect(url)
        &&& url@ == authorization_request(
            self.auth_endpoint(provider),
            client_id,
            self.start_redirect(provider),
            provider.scopes_text(),
            csrf,
        ) + extra_query(
            provider,
            match verifier {
                Some(v) => Some(s256_challenge(v)),
                None => None,
            },
        )
    }

    /// Begins a login. A provider that cannot be logged in with is not found; topsecret asks for a
    /// client first; to the others the browser is sent at once.
    pub fn start_oauth(&mut self, slug: &str) -> (step: StartStep)
        ensures
            match provider_named(slug@) {
                None => *final(self) == *old(self) && step.replies(404, "unknown provider"@),
                Some(Provider::TopSecret) => *final(self) == *old(self) && match old(self).topsecret_issuer_base {
                    None => step.replies(404, "provider not configured"@),
                    Some(base) => step matches StartStep::Register { url, body } && url@ == trimmed_end(
                        base@,
                        '/',
                    ) + "/register"@ && body@ == registration(
                        old(self).start_redirect(Provider::TopSecret),
                        Provider::TopSecret.scopes_text(),
                    ),
                },
                Some(provider) => match old(self).config(provider) {
                    None => *final(self) == *old(self) && step.replies(404, "provider not configured"@),
                    Some(config) => exists|csrf: Seq<char>|
                        {
                            &&& is_uuid_text(csrf)
                            &&& #[trigger] old(self).sends_browser(
                                *final(self),
                                provider,
                                config.client_id@,
                                None,
                                csrf,
                                None,
                                step,
                            )
                        },
                },
            },
            // What the login page lists can be begun, and nothing else.
            step is Reply <==> !(slug@ == "google"@ && old(self).google is Some || slug@ == "github"@ && old(
                self,
            ).github is Some || slug@ == "topsecret"@ && old(self).topsecret_issuer_base is Some),
    {
        proof {
            lemma_slugs(slug@);
        }
        let provider = match Provider::from_slug(slug) {
            Some(p) => p,
            None => {
                return StartStep::Reply { status: 404, text: "unknown provider".to_owned() };
            },
        };
        match provider {
            Provider::TopSecret => {
                match &self.topsecret_issuer_base {
                    Some(base) => {
                        let mut url = trim_end_char(base.as_str(), '/');
                        url.append("/register");
                        let site = trim_end_char(self.base_url.as_str(), '/');
                        let redirect_uri = write_callback(site.as_str(), provider.slug());
                        StartStep::Register { url, body: write_registration(redirect_uri.as_str(), provider.scopes()) }
                    },
                    None => StartStep::Reply { status: 404, text: "provider not configured".to_owned() },
                }
            },
            _ => {
                match self.find_config(provider) {
                    Some(config) => {
                        let csrf = new_uuid();
                        self.send_browser(provider, config, None, csrf, None)
                    },
                    None => StartStep::Reply { status: 404, text: "provider not configured".to_owned() },
                }
            },
        }
    }

    /// The registration was answered: with a client the browser is sent to topsecret.
    pub fn client_registered(&mut self, fetched: Fetched) -> (step: StartStep)
        ensures
            match registered_client(fetched) {
                None => *final(self) == *old(self) && step.replies(
                    503,
                    "OAuth: client registration failed. Try again."@,
                ),
                Some((id, secret)) => exists|csrf: Seq<char>, verifier: Seq<char>|
                    {
                        &&& is_uuid_text(csrf)
                        &&& is_verifier(verifier)
                        &&& #[trigger] old(self).sends_browser(
                            *final(self),
                            Provider::TopSecret,
                            id,
                            Some((id, secret)),
                            csrf,
                            Some(verifier),
                            step,
                        )
                    },
            },
    {
        match register_dynamic_client(&fetched) {
            Some(config) => {
                let csrf = new_uuid();
                let (verifier, challenge) = pkce_pair();
                let kept = config.copy();
                self.send_browser(Provider::TopSecret, config, Some(kept), csrf, Some((verifier, challenge)))
            },
            None => StartStep::Reply {
                status: 503,
                text: "OAuth: client registration failed. Try again.".to_owned(),
            },
        }
    }

    /// Keeps the login under its fresh state value, and sends the browser to the provider.
    pub fn send_browser(
        &mut self,
        provider: Provider,
        config: ProviderConfig,
        topsecret_config: Option<ProviderConfig>,
        csrf: String,
        pkce: Option<(String, String)>,
    ) -> (step: StartStep)
        requires
            pkce matches Some((verifier, challenge)) ==> challenge@ == s256_challenge(verifier@),
        ensures
            old(self).sends_browser(
                *final(self),
                provider,
                config.client_id@,
                match topsecret_config {
                    Some(c) => Some((c.client_id@, c.client_secret@)),
                    None => None,
                },
                csrf@,
                match pkce {
                    Some((verifier, _)) => Some(verifier@),
                    None => None,
                },
                step,
            ),
    {
        let site = trim_end_char(self.base_url.as_str(), '/');
        let redirect_uri = write_callback(site.as_str(), provider.slug());
        let endpoint = match provider {
            Provider::TopSecret => match &self.topsecret_issuer_base {
                Some(base) => joined(base.as_str(), "/authorize"),
                None => {
                    let r = "/authorize".to_owned();
                    assert(r@ =~= Seq::<char>::empty() + "/authorize"@);
                    r
                },
            },
            _ => provider.auth_url().to_owned(),
        };
        let mut url = write_authorization(
            endpoint.as_str(),
            config.client_id.as_str(),
            redirect_uri.as_str(),
            provider.scopes(),
            csrf.as_str(),
        );
        let mut extra = String::new();
        assert(extra@ =~= Seq::empty());
        let code_verifier = match pkce {
            Some((verifier, challenge)) => {
                extra.append("&code_challenge=");
                extra.append(urlencod(challenge.as_str()).as_str());
                extra.append("&code_challenge_method=S256");
                assert(extra@ =~= "&code_challenge="@ + query_value(challenge@) + "&code_challenge_method=S256"@);
                Some(verifier)
            },
            None => None,
        };
        let ghost so_far = extra@;
        match provider {
            Provider::TopSecret => {
                extra.append("&resource=");
                extra.append(urlencod(TOPSECRET_RESOURCE).as_str());
                assert(extra@ =~= so_far + ("&resource="@ + query_value(TOPSECRET_RESOURCE@)));
            },
            Provider::Google => {
                extra.append("&prompt=consent");
            },
            Provider::GitHub => {
                assert(so_far + Seq::<char>::empty() =~= so_far);
            },
        }
        url.append(extra.as_str());
        let ghost key = csrf@;
        self.pending.insert(csrf, PendingAuth { provider, code_verifier, topsecret_config });
        assert(self.pending@ =~= old(self).pending@.insert(key, self.pending@[key]));
        StartStep::Redirect(url)
    }
}

// -- The provider sends the user back.

impl OAuthState {
    /// Where a login of a provider comes back to, as the token request says it.
    pub open spec fn token_redirect(self, provider: Provider) -> Seq<char> {
        callback_address(self.base_url@, provider.slug_text())
    }

    /// The token endpoint, the endpoint for the user, and the endpoint that tells about a token.
    pub open spec fn login_endpoints(self, provider: Provider) -> (Seq<char>, Seq<char>, Option<Seq<char>>) {
        match provider {
            Provider::TopSecret => {
                let base = match self.topsecret_issuer_base {
                    Some(base) => base@,
                    None => Seq::empty(),
                };
                (base + "/token"@, base + "/userinfo"@, Some(base + "/introspect"@))
            },
            _ => (provider.endpoints().1, provider.endpoints().2, None),
        }
    }

    /// The credentials that a login goes on with.
    pub open spec fn login_config(self, login: PendingAuth) -> Option<ProviderConfig> {
        match login.provider {
            Provider::TopSecret => login.topsecret_config,
            provider => self.config(provider),
        }
    }

    /// Everything but the pending logins is as it was.
    pub open spec fn keeps_but_pending(self, after: Self) -> bool {
        &&& after.google == self.google
        &&& after.github == self.github
        &&& after.topsecret_issuer_base == self.topsecret_issuer_base
        &&& after.sessions@ == self.sessions@
        &&& after.base_url == self.base_url
    }

    /// Whether the query belongs to a login with the provider that waits for it.
    pub open spec fn awaits(self, provider: Provider, state: Seq<char>) -> bool {
        self.pending@.contains_key(state) && self.pending@[state].provider == provider
    }

    /// A callback is let through: it belongs to a login that waits for it, and its code goes to the token
    /// endpoint.
    pub open spec fn lets_through(self, slug: Seq<char>, query: CallbackQuery, step: LoginStep<Provider>) -> bool {
        &&& step matches LoginStep::Token { url, params, login }
        &&& provider_named(slug) == Some(login.provider)
        &&& query.error is None
        &&& query.code matches Some(code)
        &&& query.state matches Some(state)
        &&& self.awaits(login.provider, state@)
        &&& self.login_config(self.pending@[state@]) matches Some(config)
        &&& url@ == self.login_endpoints(login.provider).0
        &&& pair_texts(params@) == code_fields(
            code@,
            config,
            self.token_redirect(login.provider),
            opt_text(self.pending@[state@].code_verifier),
        )
        &&& login.name@ == login.provider.slug_text()
        &&& login.shape == login.provider.shape()
        &&& login.userinfo_url@ == self.login_endpoints(login.provider).1
        &&& opt_text(login.introspect_url) == self.login_endpoints(login.provider).2
    }

    /// The provider sends the user back. A state value is good for one try, whatever comes of it.
    pub fn oauth_callback(&mut self, slug: &str, query: CallbackQuery) -> (step: LoginStep<Provider>)
        ensures
            old(self).keeps_but_pending(*final(self)),
            match provider_named(slug@) {
                None => step.fails("Unknown provider"@, ""@) && final(self).pending@ == old(self).pending@,
                Some(provider) => {
                    let name = provider.slug_text();
                    match (query.error, query.code, query.state) {
                        (Some(e), _, _) => step.fails("Provider error: "@ + e@, name) && final(self).pending@ == old(
                            self,
                        ).pending@,
                        (None, None, _) => step.fails("Missing authorization code"@, name) && final(self).pending@
                            == old(self).pending@,
                        (None, Some(_), None) => step.fails("Missing state parameter"@, name) && final(self).pending@
                            == old(self).pending@,
                        (None, Some(code), Some(state)) => {
                            &&& final(self).pending@ == old(self).pending@.remove(state@)
                            &&& if !old(self).awaits(provider, state@) {
                                step.fails("Invalid or expired state (CSRF check failed)"@, name)
                            } else {
                                let waiting = old(self).pending@[state@];
                                match old(self).login_config(waiting) {
                                    None => step.fails("Provider not configured"@, name),
                                    Some(config) => {
                                        let ends = old(self).login_endpoints(provider);
                                        &&& step matches LoginStep::Token { url, params, login }
                                        &&& url@ == ends.0
                                        &&& pair_texts(params@) == code_fields(
                                            code@,
                                            config,
                                            old(self).token_redirect(provider),
                                            opt_text(waiting.code_verifier),
                                        )
                                        &&& login.provider == provider
                                        &&& login.name@ == name
                                        &&& login.shape == provider.shape()
                                        &&& login.userinfo_url@ == ends.1
                                        &&& opt_text(login.introspect_url) == ends.2
                                    },
                                }
                            }
                        },
                    }
                },
            },
            step is Token ==> old(self).lets_through(slug@, query, step),
            step is Token <==> {
                &&& provider_named(slug@) is Some
                &&& query.error is None && query.code is Some && query.state is Some
                &&& old(self).awaits(provider_named(slug@)->0, query.state->0@)
                &&& old(self).login_config(old(self).pending@[query.state->0@]) is Some
            },
    {
        let provider = match Provider::from_slug(slug) {
            Some(p) => p,
            None => {
                return LoginStep::Page(render_error("Unknown provider", ""));
            },
        };
        let name = provider.display_name();
        match query.error {
            Some(e) => {
                return LoginStep::Page(render_error(joined("Provider error: ", e.as_str()).as_str(), name));
            },
            None => {},
        }
        let code = match query.code {
            Some(c) => c,
            None => {
                return LoginStep::Page(render_error("Missing authorization code", name));
            },
        };
        let state = match query.state {
            Some(s) => s,
            None => {
                return LoginStep::Page(render_error("Missing state parameter", name));
            },
        };
        let waiting = match self.pending.get(state.as_str()) {
            Some(p) => {
                let config = match provider {
                    Provider::TopSecret => match &p.topsecret_config {
                        Some(c) => Some(c.copy()),
                        None => None,
                    },
                    _ => self.find_config(provider),
                };
                if p.provider == provider {
                    Some((p.code_verifier.clone(), config))
                } else {
                    None
                }
            },
            None => None,
        };
        self.pending.remove(state.as_str());
        let (verifier, config) = match waiting {
            Some(w) => w,
            None => {
                return LoginStep::Page(render_error("Invalid or expired state (CSRF check failed)", name));
            },
        };
        let config = match config {
            Some(c) => c,
            None => {
                return LoginStep::Page(render_error("Provider not configured", name));
            },
        };
        let redirect_uri = write_callback(self.base_url.as_str(), provider.slug());
        let params = write_code_fields(code.as_str(), &config, redirect_uri.as_str(), &verifier);
        let (token_url, userinfo_url, introspect_url) = self.endpoints_of(provider);
        LoginStep::Token {
            url: token_url,
            params,
            login: PendingLogin {
                provider,
                name: name.to_owned(),
                shape: provider.user_shape(),
                userinfo_url,
                introspect_url,
            },
        }
    }

    fn endpoints_of(&self, provider: Provider) -> (r: (String, String, Option<String>))
        ensures
            r.0@ == self.login_endpoints(provider).0,
            r.1@ == self.login_endpoints(provider).1,
            opt_text(r.2) == self.login_endpoints(provider).2,
    {
        match provider {
            Provider::TopSecret => {
                let base = match &self.topsecret_issuer_base {
                    Some(b) => b.clone(),
                    None => {
                        let none = String::new();
                        assert(none@ =~= Seq::empty());
                        none
                    },
                };
                (
                    joined(base.as_str(), "/token"),
                    joined(base.as_str(), "/userinfo"),
                    Some(joined(base.as_str(), "/introspect")),
                )
            },
            _ => (provider.token_url().to_owned(), provider.userinfo_url().to_owned(), None),
        }
    }

    /// The user was answered for: the session begins, and the page shows the user and the commands
    /// that use the token.
    pub fn logged_in(&mut self, login: PendingLogin<Provider>, token: String, fetched: Fetched) -> (page: LoginResult)
        ensures
            match answer_of(fetched) {
                AnswerView::Unsent(e) => *final(self) == *old(self) && page.fails(
                    "Userinfo request failed: "@ + e,
                    login.name@,
                ),
                AnswerView::Unreadable(e) => *final(self) == *old(self) && page.fails(
                    "Userinfo parse error: "@ + e,
                    login.name@,
                ),
                AnswerView::Document(json) => {
                    &&& is_uuid_text(page.session_id@)
                    &&& old(self).begins_session(*final(self), login, token@, page.session_id@)
                    &&& shows_user(page, login.name@, login.shape, json)
                    &&& page.curl_userinfo@ == userinfo_command(token@, login.userinfo_url@)
                    &&& page.curl_introspect@ == introspect_command(token@, opt_text(login.introspect_url))
                },
            },
            greets(login, token@, fetched, page),
    {
        match user_answered(&login, fetched) {
            Ok(page) => {
                let session_id = new_uuid();
                self.begin_session(login, token, page, session_id)
            },
            Err(page) => page,
        }
    }

    /// Whether a session begins under that identifier, and nothing else changes.
    pub open spec fn begins_session(
        self,
        after: Self,
        login: PendingLogin<Provider>,
        token: Seq<char>,
        session_id: Seq<char>,
    ) -> bool {
        &&& after.google == self.google
        &&& after.github == self.github
        &&& after.topsecret_issuer_base == self.topsecret_issuer_base
        &&& after.pending@ == self.pending@
        &&& after.base_url == self.base_url
        &&& after.sessions@.contains_key(session_id)
        &&& after.sessions@ == self.sessions@.insert(session_id, after.sessions@[session_id])
        &&& after.sessions@[session_id].provider == login.provider
        &&& after.sessions@[session_id].access_token@ == token
    }

    /// Begins a session under a fresh identifier, and puts it on the page.
    pub fn begin_session(
        &mut self,
        login: PendingLogin<Provider>,
        token: String,
        page: LoginResult,
        session_id: String,
    ) -> (r: LoginResult)
        ensures
            old(self).begins_session(*final(self), login, token@, session_id@),
            r == (LoginResult {
                session_id,
                curl_userinfo: r.curl_userinfo,
                curl_introspect: r.curl_introspect,
                ..page
            }),
            r.curl_userinfo@ == userinfo_command(token@, login.userinfo_url@),
            r.curl_introspect@ == introspect_command(token@, opt_text(login.introspect_url)),
    {
        let escaped = quote(token.as_str());
        let mut curl_userinfo = joined("curl -H \"Authorization: Bearer ", escaped.as_str());
        curl_userinfo.append("\" \"");
        curl_userinfo.append(login.userinfo_url.as_str());
        curl_userinfo.append("\"");
        let curl_introspect = match &login.introspect_url {
            Some(url) => {
                let mut c = joined("curl -X POST \"", url.as_str());
                c.append("\" -H \"Content-Type: application/x-www-form-urlencoded\" -d \"token=");
                c.append(escaped.as_str());
                c.append("\" -d \"token_type_hint=access_token\"");
                c
            },
            None => {
                let none = String::new();
                assert(none@ =~= Seq::empty());
                none
            },
        };
        let ghost key = session_id@;
        self.sessions.insert(session_id.clone(), SessionInfo { provider: login.provider, access_token: token });
        assert(self.sessions@ =~= old(self).sessions@.insert(key, self.sessions@[key]));
        let mut r = page;
        r.session_id = session_id;
        r.curl_userinfo = curl_userinfo;
        r.curl_introspect = curl_introspect;
        r
    }
}

/// Where the user is answered for, the page shows the user and the commands that use the token.
pub open spec fn greets(login: PendingLogin<Provider>, token: Seq<char>, fetched: Fetched, page: LoginResult) -> bool {
    answer_of(fetched) matches AnswerView::Document(json) ==> {
        &&& shows_user(page, login.name@, login.shape, json)
        &&& page.curl_userinfo@ == userinfo_command(token, login.userinfo_url@)
        &&& page.curl_introspect@ == introspect_command(token, opt_text(login.introspect_url))
    }
}

/// The command that asks for the user with the token.
pub open spec fn userinfo_command(token: Seq<char>, url: Seq<char>) -> Seq<char> {
    "curl -H \"Authorization: Bearer "@ + quoted(token) + "\" \""@ + url + "\""@
}

/// The command that asks about the token, where the provider tells.
pub open spec fn introspect_command(token: Seq<char>, url: Option<Seq<char>>) -> Seq<char> {
    match url {
        Some(u) => "curl -X POST \""@ + u + "\" -H \"Content-Type: application/x-www-form-urlencoded\" -d \"token="@
            + quoted(token) + "\" -d \"token_type_hint=access_token\""@,
        None => Seq::empty(),
    }
}

// -- Logout.

/// What the page behind a logout shows.
#[derive(Debug)]
pub struct LogoutResult {
    pub provider_name: String,
    pub revoke_ok: bool,
    pub revoke_detail: String,
}

impl LogoutResult {
    /// What the page says.
    pub open spec fn says(self, name: Seq<char>, ok: bool, detail: Seq<char>) -> bool {
        self.provider_name@ == name && self.revoke_ok == ok && self.revoke_detail@ == detail
    }
}

/// What a logout does next.
#[derive(Debug)]
pub enum LogoutStep {
    /// Show the page.
    Page(LogoutResult),
    /// Revoke the grant that the user gave: a DELETE with basic authentication and the document.
    RevokeGrant { url: String, client_id: String, client_secret: String, body: Json },
    /// Revoke the token: an empty POST.
    RevokeToken { url: String },
}

/// The document that names a token.
pub open spec fn token_document(token: Seq<char>) -> JsonView {
    JsonView::Object(seq![("access_token"@, JsonView::Text(token))])
}

fn write_token_document(token: &str) -> (j: Json)
    ensures
        j@ == token_document(token@),
{
    let mut members: Vec<(String, Json)> = Vec::new();
    members.push(("access_token".to_owned(), text_json(token)));
    let ghost all = member_views(members@);
    let j = Json::Object(members);
    proof {
        lemma_object_view(j);
        assert(all =~= token_document(token@)->Object_0);
    }
    j
}

impl OAuthState {
    /// What a logout from a session asks of its provider.
    pub open spec fn revokes(self, session: SessionInfo, step: LogoutStep) -> bool {
        let name = session.provider.slug_text();
        match (session.provider, self.config(session.provider)) {
            (Provider::TopSecret, _) => step matches LogoutStep::Page(page) && page.says(
                name,
                true,
                "Session cleared."@,
            ),
            (_, None) => step matches LogoutStep::Page(page) && page.says(name, false, "Provider not configured."@),
            (Provider::GitHub, Some(config)) => {
                &&& step matches LogoutStep::RevokeGrant { url, client_id, client_secret, body }
                &&& url@ == "https://api.github.com/applications/"@ + config.client_id@ + "/grant"@
                &&& client_id@ == config.client_id@
                &&& client_secret@ == config.client_secret@
                &&& body@ == token_document(session.access_token@)
            },
            (Provider::Google, Some(_)) => step matches LogoutStep::RevokeToken { url } && url@
                == "https://oauth2.googleapis.com/revoke?token="@ + query_value(session.access_token@),
        }
    }

    /// What a logout leaves behind, and what it asks for.
    pub open spec fn forgets(self, after: Self, session_id: Seq<char>, step: LogoutStep) -> bool {
        &&& after.sessions@ == self.sessions@.remove(session_id)
        &&& self.sessions@.contains_key(session_id) ==> self.revokes(self.sessions@[session_id], step)
        &&& !self.sessions@.contains_key(session_id) ==> step is Page && !step->Page_0.revoke_ok
        &&& after.google == self.google && after.github == self.github
    }

    /// Ends a session: it is forgotten whatever the provider answers. The provider is asked to
    /// revoke what it granted.
    pub fn logout(&mut self, session_id: &str) -> (step: LogoutStep)
        ensures
            final(self).google == old(self).google,
            final(self).github == old(self).github,
            final(self).topsecret_issuer_base == old(self).topsecret_issuer_base,
            final(self).pending@ == old(self).pending@,
            final(self).base_url == old(self).base_url,
            final(self).sessions@ == old(self).sessions@.remove(session_id@),
            if old(self).sessions@.contains_key(session_id@) {
                old(self).revokes(old(self).sessions@[session_id@], step)
            } else {
                step matches LogoutStep::Page(page) && page.says(
                    "unknown"@,
                    false,
                    "Session not found (expired or already logged out)."@,
                )
            },
            old(self).forgets(*final(self), session_id@, step),
    {
        let session = match self.sessions.get(session_id) {
            Some(s) => Some((s.provider, s.access_token.clone())),
            None => None,
        };
        self.sessions.remove(session_id);
        let (provider, token) = match session {
            Some(s) => s,
            None => {
                return LogoutStep::Page(
                    LogoutResult {
                        provider_name: "unknown".to_owned(),
                        revoke_ok: false,
                        revoke_detail: "Session not found (expired or already logged out).".to_owned(),
                    },
                );
            },
        };
        let name = provider.display_name().to_owned();
        match provider {
            Provider::TopSecret => {
                return LogoutStep::Page(
                    LogoutResult {
                        provider_name: name,
                        revoke_ok: true,
                        revoke_detail: "Session cleared.".to_owned(),
                    },
                );
            },
            _ => {},
        }
        let config = match self.find_config(provider) {
            Some(c) => c,
            None => {
                return LogoutStep::Page(
                    LogoutResult {
                        provider_name: name,
                        revoke_ok: false,
                        revoke_detail: "Provider not configured.".to_owned(),
                    },
                );
            },
        };
        match provider {
            Provider::GitHub => {
                let mut url = joined("https://api.github.com/applications/", config.client_id.as_str());
                url.append("/grant");
                LogoutStep::RevokeGrant {
                    url,
                    client_id: config.client_id,
                    client_secret: config.client_secret,
                    body: write_token_document(token.as_str()),
                }
            },
            _ => LogoutStep::RevokeToken {
                url: joined("https://oauth2.googleapis.com/revoke?token=", urlencod(token.as_str()).as_str()),
            },
        }
    }
}

/// What comes of revoking a grant at GitHub.
pub fn grant_revoked(fetched: Fetched) -> (page: LogoutResult)
    ensures
        match fetched {
            Fetched::Answer(a) => page.says(
                "github"@,
                is_success(a.status),
                trimmed("Grant revoke: "@ + a.status_text@ + " "@ + a.text()),
            ),
            Fetched::Failed(e) => page.says("github"@, false, "Grant revoke failed: "@ + e@),
        },
{
    match fetched {
        Fetched::Answer(a) => {
            let mut detail = joined("Grant revoke: ", a.status_text.as_str());
            detail.append(" ");
            detail.append(a.body_text().as_str());
            LogoutResult {
                provider_name: "github".to_owned(),
                revoke_ok: a.status == 204 || a.succeeded(),
                revoke_detail: trim(detail.as_str()),
            }
        },
        Fetched::Failed(e) => LogoutResult {
            provider_name: "github".to_owned(),
            revoke_ok: false,
            revoke_detail: joined("Grant revoke failed: ", e.as_str()),
        },
    }
}

/// What comes of revoking a token at Google.
pub fn token_revoked(fetched: Fetched) -> (page: LogoutResult)
    ensures
        match fetched {
            Fetched::Answer(a) => page.says("google"@, is_success(a.status), "Token revoke: "@ + a.status_text@),
            Fetched::Failed(e) => page.says("google"@, false, "Token revoke: error ("@ + e@ + ")"@),
        },
{
    match fetched {
        Fetched::Answer(a) => LogoutResult {
            provider_name: "google".to_owned(),
            revoke_ok: a.succeeded(),
            revoke_detail: joined("Token revoke: ", a.status_text.as_str()),
        },
        Fetched::Failed(e) => {
            let mut detail = joined("Token revoke: error (", e.as_str());
            detail.append(")");
            LogoutResult { provider_name: "google".to_owned(), revoke_ok: false, revoke_detail: detail }
        },
    }
}

// -- What holds of whole logins.

/// The token request names the same callback as the authorization request, provided that the base
/// URL of the site does not end in a slash.
pub proof fn both_requests_name_one_callback(state: OAuthState, provider: Provider)
    requires
        trimmed_end(state.base_url@, '/') == state.base_url@,
    ensures
        state.start_redirect(provider) == state.token_redirect(provider),
{
}

/// The callback that a client is registered with is the one that its authorization request names, as
/// long as the site stays where it is.
pub proof fn the_registered_callback_is_asked_for(
    registering: OAuthState,
    asking: OAuthState,
    after: OAuthState,
    client: (Seq<char>, Seq<char>),
    csrf: Seq<char>,
    verifier: Seq<char>,
    step: StartStep,
)
    requires
        registering.base_url@ == asking.base_url@,
        asking.sends_browser(after, Provider::TopSecret, client.0, Some(client), csrf, Some(verifier), step),
    ensures
        step matches StartStep::Redirect(url) && url@ == authorization_request(
            asking.auth_endpoint(Provider::TopSecret),
            client.0,
            registering.start_redirect(Provider::TopSecret),
            Provider::TopSecret.scopes_text(),
            csrf,
        ) + extra_query(Provider::TopSecret, Some(s256_challenge(verifier))),
{
}

/// The provider that a browser was sent to can send it back: the state value in the authorization
/// request is one that the callback of that provider takes, with the verifier whose challenge went
/// with it; and once it is taken it is good for nothing.
pub proof fn a_login_comes_back_once(
    before: OAuthState,
    after: OAuthState,
    provider: Provider,
    client_id: Seq<char>,
    registered: Option<(Seq<char>, Seq<char>)>,
    csrf: Seq<char>,
    verifier: Option<Seq<char>>,
    step: StartStep,
)
    requires
        before.sends_browser(after, provider, client_id, registered, csrf, verifier, step),
    ensures
        after.awaits(provider, csrf),
        opt_text(after.pending@[csrf].code_verifier) == verifier,
        forall|other: Provider| other != provider ==> !after.awaits(other, csrf),
        !after.pending@.remove(csrf).contains_key(csrf),
{
}

/// A session that began can be ended, once.
pub proof fn a_session_ends_once(
    before: OAuthState,
    after: OAuthState,
    login: PendingLogin<Provider>,
    token: Seq<char>,
    session_id: Seq<char>,
)
    requires
        before.begins_session(after, login, token, session_id),
    ensures
        after.sessions@.contains_key(session_id),
        after.sessions@[session_id].access_token@ == token,
        !after.sessions@.remove(session_id).contains_key(session_id),
{
}

/// What the browser is sent to is the authorization endpoint of the provider, with the client, the
/// callback below the site, the provider's scopes and the state value under which the login waits. Only a
/// login with a verifier carries a challenge, which is that verifier's; topsecret is told the resource,
/// and Google asks for consent.
pub proof fn the_browser_is_sent_to_the_provider(
    before: OAuthState,
    after: OAuthState,
    provider: Provider,
    client_id: Seq<char>,
    registered: Option<(Seq<char>, Seq<char>)>,
    csrf: Seq<char>,
    verifier: Option<Seq<char>>,
    step: StartStep,
)
    requires
        before.sends_browser(after, provider, client_id, registered, csrf, verifier, step),
    ensures
        step is Redirect,
        after.pending@.contains_key(csrf),
        ({
            let url = step->Redirect_0@;
            let site = trimmed_end(before.base_url@, '/');
            let asked = "?client_id="@ + query_value(client_id) + "&"@;
            &&& provider == Provider::Google ==> {
                &&& ("https://accounts.google.com/o/oauth2/v2/auth"@ + asked).is_prefix_of(url)
                &&& contains_part(url, "&redirect_uri="@ + query_value(site + "/login/google/callback"@) + "&"@)
                &&& contains_part(url, "&scope="@ + query_value("openid email profile"@) + "&"@)
                &&& "&prompt=consent"@.is_suffix_of(url)
            }
            &&& provider == Provider::GitHub ==> {
                &&& ("https://github.com/login/oauth/authorize"@ + asked).is_prefix_of(url)
                &&& contains_part(url, "&redirect_uri="@ + query_value(site + "/login/github/callback"@) + "&"@)
                &&& contains_part(url, "&scope="@ + query_value("read:user user:email"@) + "&"@)
            }
            &&& provider == Provider::TopSecret && before.topsecret_issuer_base is Some ==> {
                &&& (before.topsecret_issuer_base->0@ + "/authorize"@ + asked).is_prefix_of(url)
                &&& contains_part(url, "&redirect_uri="@ + query_value(site + "/login/topsecret/callback"@) + "&"@)
                &&& contains_part(url, "&scope="@ + query_value("openid profile email read write"@) + "&"@)
                &&& ("&resource="@ + query_value("https://mcp.dima.ai"@)).is_suffix_of(url)
            }
            &&& contains_part(url, "&state="@ + query_value(csrf) + "&"@)
            &&& contains_part(url, "&response_type=code"@)
            &&& verifier matches Some(v) ==> contains_part(
                url,
                "&code_challenge="@ + query_value(base64url(sha256(encode_utf8(v)))) + "&code_challenge_method=S256"@,
            )
        }),
{
    let site = trimmed_end(before.base_url@, '/');
    let challenge = match verifier {
        Some(v) => Some(s256_challenge(v)),
        None => None,
    };
    let proved = match challenge {
        Some(c) => "&code_challenge="@ + query_value(c) + "&code_challenge_method=S256"@,
        None => Seq::<char>::empty(),
    };
    let tail = match provider {
        Provider::TopSecret => "&resource="@ + query_value(TOPSECRET_RESOURCE@),
        Provider::Google => "&prompt=consent"@,
        Provider::GitHub => Seq::<char>::empty(),
    };
    assert(extra_query(provider, challenge) == proved + tail);
    lemma_callback_address(site);
    lemma_sent(
        before.auth_endpoint(provider),
        client_id,
        before.start_redirect(provider),
        provider.scopes_text(),
        csrf,
        proved,
        tail,
    );
}

proof fn lemma_sent(
    endpoint: Seq<char>,
    client_id: Seq<char>,
    redirect_uri: Seq<char>,
    scopes: Seq<char>,
    csrf: Seq<char>,
    proved: Seq<char>,
    tail: Seq<char>,
)
    ensures
        ({
            let url = authorization_request(endpoint, client_id, redirect_uri, scopes, csrf) + (proved + tail);
            &&& (endpoint + ("?client_id="@ + query_value(client_id) + "&"@)).is_prefix_of(url)
            &&& contains_part(url, "&redirect_uri="@ + query_value(redirect_uri) + "&"@)
            &&& contains_part(url, "&scope="@ + query_value(scopes) + "&"@)
            &&& contains_part(url, "&state="@ + query_value(csrf) + "&"@)
            &&& contains_part(url, "&response_type=code"@)
            &&& contains_part(url, proved)
            &&& tail.is_suffix_of(url)
        }),
{
    an_authorization_request_names_everything(endpoint, client_id, redirect_uri, scopes, csrf);
    let request = authorization_request(endpoint, client_id, redirect_uri, scopes, csrf);
    let extra = proved + tail;
    lemma_contains_longer(request, endpoint + ("?client_id="@ + query_value(client_id) + "&"@), extra);
    lemma_contains_longer(request, "&redirect_uri="@ + query_value(redirect_uri) + "&"@, extra);
    lemma_contains_longer(request, "&scope="@ + query_value(scopes) + "&"@, extra);
    lemma_contains_longer(request, "&state="@ + query_value(csrf) + "&"@, extra);
    lemma_contains_longer(request, "&response_type=code"@, extra);
    lemma_extra_parts(request, proved, tail);
}

proof fn lemma_extra_parts(request: Seq<char>, proved: Seq<char>, tail: Seq<char>)
    ensures
        contains_part(request + (proved + tail), proved),
        tail.is_suffix_of(request + (proved + tail)),
{
    let url = request + (proved + tail);
    assert(url =~= request + proved + tail);
    lemma_contains_between(request, proved, tail);
    assert(url.subrange(url.len() - tail.len(), url.len() as int) =~= tail);
}

proof fn lemma_callback_address(site: Seq<char>)
    ensures
        callback_address(site, "google"@) == site + "/login/google/callback"@,
        callback_address(site, "github"@) == site + "/login/github/callback"@,
        callback_address(site, "topsecret"@) == site + "/login/topsecret/callback"@,
{
    reveal_strlit("/login/");
    reveal_strlit("/callback");
    reveal_strlit("google");
    reveal_strlit("github");
    reveal_strlit("topsecret");
    reveal_strlit("/login/google/callback");
    reveal_strlit("/login/github/callback");
    reveal_strlit("/login/topsecret/callback");
    assert(callback_address(site, "google"@) =~= site + "/login/google/callback"@);
    assert(callback_address(site, "github"@) =~= site + "/login/github/callback"@);
    assert(callback_address(site, "topsecret"@) =~= site + "/login/topsecret/callback"@);
}

proof fn lemma_slugs(slug: Seq<char>)
    ensures
        slug == "google"@ ==> provider_named(slug) == Some(Provider::Google),
        slug == "github"@ ==> provider_named(slug) == Some(Provider::GitHub),
        slug == "topsecret"@ ==> provider_named(slug) == Some(Provider::TopSecret),
{
    slugs_name_providers(Provider::Google, slug);
    slugs_name_providers(Provider::GitHub, slug);
    slugs_name_providers(Provider::TopSecret, slug);
}

/// A callback that is let through is exchanged at the token endpoint of its provider, with the code that
/// it brought, the credentials of this site, the callback below the site, and the verifier of the login
/// exactly where the login has one.
pub proof fn the_token_request_carries_what_waits(
    state: OAuthState,
    slug: Seq<char>,
    query: CallbackQuery,
    step: LoginStep<Provider>,
)
    requires
        state.lets_through(slug, query, step),
    ensures
        step is Token,
        slug == "google"@ || slug == "github"@ || slug == "topsecret"@,
        query.error is None && query.code is Some && query.state is Some,
        state.pending@.contains_key(query.state->0@),
        ({
            let waiting = state.pending@[query.state->0@];
            let url = step->Token_url@;
            let login = step->Token_login;
            let fields = pair_texts(step->params@);
            let config = if slug == "google"@ {
                state.google
            } else if slug == "github"@ {
                state.github
            } else {
                waiting.topsecret_config
            };
            &&& slug == "google"@ ==> {
                &&& waiting.provider == Provider::Google
                &&& url == "https://oauth2.googleapis.com/token"@
                &&& login.userinfo_url@ == "https://www.googleapis.com/oauth2/v3/userinfo"@
                &&& login.introspect_url is None
            }
            &&& slug == "github"@ ==> {
                &&& waiting.provider == Provider::GitHub
                &&& url == "https://github.com/login/oauth/access_token"@
                &&& login.userinfo_url@ == "https://api.github.com/user"@
                &&& login.introspect_url is None
            }
            &&& slug == "topsecret"@ && state.topsecret_issuer_base is Some ==> {
                let base = state.topsecret_issuer_base->0@;
                &&& waiting.provider == Provider::TopSecret
                &&& url == base + "/token"@
                &&& login.userinfo_url@ == base + "/userinfo"@
                &&& opt_text(login.introspect_url) == Some(base + "/introspect"@)
            }
            &&& config is Some
            &&& holds_only(fields, "grant_type"@, "authorization_code"@)
            &&& holds_only(fields, "code"@, query.code->0@)
            &&& holds_only(fields, "client_id"@, config->0.client_id@)
            &&& holds_only(fields, "client_secret"@, config->0.client_secret@)
            &&& holds_only(fields, "redirect_uri"@, state.base_url@ + "/login/"@ + slug + "/callback"@)
            &&& match waiting.code_verifier {
                Some(v) => holds_only(fields, "code_verifier"@, v@),
                None => holds_none(fields, "code_verifier"@),
            }
        }),
{
    lemma_slugs(slug);
    let waiting = state.pending@[query.state->0@];
    let login = step->Token_login;
    slugs_name_providers(login.provider, slug);
    a_token_request_carries_everything(
        query.code->0@,
        state.login_config(waiting)->0,
        state.token_redirect(login.provider),
        opt_text(waiting.code_verifier),
    );
}

/// A user who logs in with GitHub is shown with the avatar that GitHub's answer holds, and by name or else
/// by login; one who logs in with Google or topsecret with the picture and by name. The address, and the
/// answer itself, are shown for everyone.
pub proof fn users_are_shown_as_their_provider_describes_them(
    state: OAuthState,
    slug: Seq<char>,
    query: CallbackQuery,
    step: LoginStep<Provider>,
    token: Seq<char>,
    answer: Answer,
    json: JsonView,
    page: LoginResult,
)
    requires
        state.lets_through(slug, query, step),
        answer.body matches Ok(bytes) && parsed(bytes@) == Ok::<JsonView, Seq<char>>(json),
        greets(step->Token_login, token, Fetched::Answer(answer), page),
    ensures
        page.success,
        page.provider_name@ == slug,
        slug == "github"@ ==> {
            &&& page.avatar_url@ == text_member(json, "avatar_url"@)
            &&& page.user_name@ == if member(json, "name"@) matches Some(JsonView::Text(_)) {
                text_member(json, "name"@)
            } else {
                text_member(json, "login"@)
            }
        },
        slug != "github"@ ==> {
            &&& page.avatar_url@ == text_member(json, "picture"@)
            &&& page.user_name@ == text_member(json, "name"@)
        },
        page.user_email@ == text_member(json, "email"@),
        page.raw_json@ == pretty(json),
        page.error_message@.len() == 0,
{
    lemma_slugs(slug);
    let login = step->Token_login;
    slugs_name_providers(login.provider, slug);
    slugs_name_providers(Provider::GitHub, slug);
    documents_are_taken_whatever_their_status(answer, json);
}

/// The commands on the page hold the token in quotes: between them stands what a shell reads as the token.
pub proof fn the_commands_hold_the_token(
    login: PendingLogin<Provider>,
    token: Seq<char>,
    answer: Answer,
    json: JsonView,
    page: LoginResult,
)
    requires
        answer.body matches Ok(bytes) && parsed(bytes@) == Ok::<JsonView, Seq<char>>(json),
        greets(login, token, Fetched::Answer(answer), page),
    ensures
        ("curl -H \"Authorization: Bearer "@ + quoted(token) + "\" "@).is_prefix_of(page.curl_userinfo@),
        ("\""@ + login.userinfo_url@ + "\""@).is_suffix_of(page.curl_userinfo@),
        unquoted(quoted(token)) == token,
        match login.introspect_url {
            Some(url) => ("curl -X POST \""@ + url@ + "\" "@).is_prefix_of(page.curl_introspect@) && contains_part(
                page.curl_introspect@,
                "-d \"token="@ + quoted(token) + "\" "@,
            ),
            None => page.curl_introspect@.len() == 0,
        },
{
    quoting_keeps_the_token(token);
    documents_are_taken_whatever_their_status(answer, json);
    reveal_strlit("\" ");
    reveal_strlit("\"");
    reveal_strlit("\" \"");
    let shown = page.curl_userinfo@;
    let head = "curl -H \"Authorization: Bearer "@ + quoted(token) + "\" "@;
    assert(shown.subrange(0, head.len() as int) =~= head);
    let tail = "\""@ + login.userinfo_url@ + "\""@;
    assert(shown.subrange(shown.len() - tail.len(), shown.len() as int) =~= tail);
    if login.introspect_url is Some {
        let url = login.introspect_url->0@;
        let asked = page.curl_introspect@;
        reveal_strlit("\" -H \"Content-Type: application/x-www-form-urlencoded\" -d \"token=");
        reveal_strlit("-d \"token=");
        reveal_strlit("\" -d \"token_type_hint=access_token\"");
        let first = "curl -X POST \""@ + url + "\" "@;
        assert(asked.subrange(0, first.len() as int) =~= first);
        let long = "\" -H \"Content-Type: application/x-www-form-urlencoded\" -d \"token="@;
        let part = "-d \"token="@ + quoted(token) + "\" "@;
        let before = "curl -X POST \""@ + url + long.take(long.len() - 10);
        let last = "\" -d \"token_type_hint=access_token\""@;
        assert(long.skip(long.len() - 10) =~= "-d \"token="@);
        assert(asked =~= before + part + last.skip(2));
        lemma_contains_between(before, part, last.skip(2));
    }
}

/// A logout asks the provider that granted the token to take it back: Google for the token, GitHub for the
/// whole grant, with the credentials of this site. Topsecret is not asked.
pub proof fn a_logout_takes_back_what_was_granted(state: OAuthState, session: SessionInfo, step: LogoutStep)
    requires
        state.revokes(session, step),
    ensures
        session.provider == Provider::Google && state.google is Some ==> {
            &&& step is RevokeToken
            &&& step->RevokeToken_url@ == "https://oauth2.googleapis.com/revoke?token="@ + query_value(
                session.access_token@,
            )
        },
        session.provider == Provider::GitHub && state.github is Some ==> {
            &&& step is RevokeGrant
            &&& step->RevokeGrant_url@ == "https://api.github.com/applications/"@ + state.github->0.client_id@
                + "/grant"@
            &&& step->client_id@ == state.github->0.client_id@
            &&& step->client_secret@ == state.github->0.client_secret@
            &&& member(step->body@, "access_token"@) == Some(JsonView::Text(session.access_token@))
        },
        session.provider == Provider::TopSecret ==> step is Page && step->Page_0.revoke_ok,
        session.provider == Provider::Google && state.google is None ==> step is Page && !step->Page_0.revoke_ok,
        session.provider == Provider::GitHub && state.github is None ==> step is Page && !step->Page_0.revoke_ok,
{
}

/// A client is registered with the callback and the scopes, and what the answer names is the client; only
/// a successful answer with an identifier names one.
pub proof fn a_registration_names_the_callback(redirect_uri: Seq<char>, scope: Seq<char>, answer: Answer)
    ensures
        member(registration(redirect_uri, scope), "redirect_uris"@) == Some(
            JsonView::Array(seq![JsonView::Text(redirect_uri)]),
        ),
        member(registration(redirect_uri, scope), "scope"@) == Some(JsonView::Text(scope)),
        answer.status < 200 || answer.status >= 300 ==> registered_client(Fetched::Answer(answer)) is None,
        200 <= answer.status < 300 ==> (answer.body matches Ok(bytes) ==> (parsed(bytes@) matches Ok(json) ==> {
            let client = registered_client(Fetched::Answer(answer));
            &&& client is Some <==> member(json, "client_id"@) is Some && member(json, "client_id"@)->0 is Text
            &&& client is Some ==> client->0 == (text_member(json, "client_id"@), text_member(json, "client_secret"@))
        })),
{
    reveal_strlit("redirect_uris");
    reveal_strlit("scope");
    let members = registration(redirect_uri, scope)->Object_0;
    assert("redirect_uris"@.len() != "scope"@.len());
    assert(members[0].0 != "scope"@);
    assert(members.drop_first()[0] == members[1]);
    assert(lookup(members, "scope"@) == lookup(members.drop_first(), "scope"@));
}

/// A provider can be logged in with exactly where this site has credentials with it; topsecret exactly where
/// its issuer is configured.
pub proof fn what_is_offered(state: OAuthState)
    ensures
        state.offers(Provider::Google) <==> state.google is Some,
        state.offers(Provider::GitHub) <==> state.github is Some,
        state.offers(Provider::TopSecret) <==> state.topsecret_issuer_base is Some,
{
}

/// The line about an environment variable tells how many bytes its value has, and nothing else of it: two
/// values of the same size give the same line. A variable that is not set is told like an empty one.
pub proof fn values_are_told_by_their_size(name: Seq<char>, a: Seq<char>, b: Seq<char>)
    ensures
        encode_utf8(a).len() == encode_utf8(b).len() ==> debug_line(name, Some(a)) == debug_line(name, Some(b)),
        debug_line(name, Some(a)) == name + ": "@ + decimal(encode_utf8(a).len()) + " chars"@,
        debug_line(name, None) == name + ": "@ + decimal(0) + " chars"@,
{
}

/// A callback that is let through, and whose code is exchanged for a token, leads to a request for the user
/// at the provider's own endpoint, with that token.
pub proof fn the_user_is_asked_for_at_the_provider(
    state: OAuthState,
    slug: Seq<char>,
    query: CallbackQuery,
    step: LoginStep<Provider>,
    answer: Answer,
    json: JsonView,
    token: Seq<char>,
    next: LoginStep<Provider>,
)
    requires
        state.lets_through(slug, query, step),
        asks_for_user(step->Token_login, Fetched::Answer(answer), next),
        answer.body matches Ok(bytes) && parsed(bytes@) == Ok::<JsonView, Seq<char>>(json),
        member(json, "access_token"@) == Some(JsonView::Text(token)),
    ensures
        next is UserInfo,
        next->token@ == token,
        slug == "google"@ ==> next->UserInfo_url@ == "https://www.googleapis.com/oauth2/v3/userinfo"@,
        slug == "github"@ ==> next->UserInfo_url@ == "https://api.github.com/user"@,
        slug == "topsecret"@ && state.topsecret_issuer_base is Some ==> next->UserInfo_url@
            == state.topsecret_issuer_base->0@ + "/userinfo"@,
        next->UserInfo_login == step->Token_login,
{
    the_token_request_carries_what_waits(state, slug, query, step);
    the_granted_token_asks_for_the_user(step->Token_login, answer, json, next);
}

/// A session that began with a token is ended by asking the provider to take back that very token; ending it
/// once more finds nothing. Every other session stays.
pub proof fn a_logout_ends_what_a_login_began(
    before: OAuthState,
    begun: OAuthState,
    login: PendingLogin<Provider>,
    token: Seq<char>,
    session_id: Seq<char>,
    ended: OAuthState,
    step: LogoutStep,
    after: OAuthState,
    again: LogoutStep,
    other: Seq<char>,
)
    requires
        before.begins_session(begun, login, token, session_id),
        begun.forgets(ended, session_id, step),
        ended.forgets(after, session_id, again),
        other != session_id,
    ensures
        login.provider == Provider::GitHub && before.github is Some ==> step is RevokeGrant && member(
            step->body@,
            "access_token"@,
        ) == Some(JsonView::Text(token)),
        login.provider == Provider::Google && before.google is Some ==> step is RevokeToken && query_value(
            token,
        ).is_suffix_of(step->RevokeToken_url@),
        again is Page && !again->Page_0.revoke_ok,
        !ended.sessions@.contains_key(session_id),
        before.sessions@.contains_key(other) <==> ended.sessions@.contains_key(other),
        before.sessions@.contains_key(other) ==> ended.sessions@[other] == before.sessions@[other],
{
    a_logout_takes_back_what_was_granted(begun, begun.sessions@[session_id], step);
    if step is RevokeToken {
        let url = step->RevokeToken_url@;
        let part = query_value(token);
        if login.provider == Provider::Google && before.google is Some {
            assert(url.subrange(url.len() - part.len(), url.len() as int) =~= part);
        }
    }
}

} // verus!
