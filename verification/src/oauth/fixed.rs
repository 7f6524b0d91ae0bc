//! The login with a fixed client for topsecret: all three providers work alike, there is no proof
//! key, and a login leaves no session behind.
use vstd::hash_map::*;
use vstd::prelude::*;
use vstd::string::*;

use crate::encoding::{holds_none, holds_only, is_uuid_text, new_uuid, pair_texts, query_value};
use crate::exchange::{Answer, Fetched};
use crate::json::{member, parsed, pretty, text_member, JsonView};
use crate::oauth::common::{
    a_token_request_carries_everything, an_authorization_request_names_everything, answer_of, authorization_request,
    callback_address, code_fields, credentials, documents_are_taken_whatever_their_status, info_views, render_error,
    shows_user, take_credentials, user_answered, write_authorization, write_callback, write_code_fields, AnswerView,
    CallbackQuery, LoginResult, LoginStep, PendingLogin, ProviderConfig, ProviderInfo, UserShape,
};
use crate::oauth::{debug_line, write_debug_line};
use crate::text::{contains_part, joined, opt_text, same_text};

verus! {

/// The providers.
#[derive(Debug, Clone, Copy, PartialEq, Eq, Structural, Hash)]
pub enum Provider {
    Google,
    GitHub,
    TopSecret,
}

impl Provider {
    /// The name of the provider in paths.
    pub open spec fn slug_text(self) -> Seq<char> {
        match self {
            Provider::Google => "google"@,
            Provider::GitHub => "github"@,
            Provider::TopSecret => "xmemory"@,
        }
    }

    /// What the provider is called.
    pub open spec fn name_text(self) -> Seq<char> {
        match self {
            Provider::Google => "google"@,
            Provider::GitHub => "github"@,
            Provider::TopSecret => "topsecret"@,
        }
    }

    /// What the provider's users are asked to agree to.
    pub open spec fn scopes_text(self) -> Seq<char> {
        match self {
            Provider::Google => "openid email profile"@,
            Provider::GitHub => "read:user user:email"@,
            Provider::TopSecret => "openid read write"@,
        }
    }

    /// The endpoints of a provider: for the authorization, the token and the user.
    pub open spec fn endpoints(self) -> (Seq<char>, Seq<char>, Seq<char>) {
        match self {
            Provider::Google => (
                "https://accounts.google.com/o/oauth2/v2/auth"@,
                "https://oauth2.googleapis.com/token"@,
                "https://www.googleapis.com/oauth2/v3/userinfo"@,
            ),
            Provider::GitHub => (
                "https://github.com/login/oauth/authorize"@,
                "https://github.com/login/oauth/access_token"@,
                "https://api.github.com/user"@,
            ),
            Provider::TopSecret => (
                "https://dk-oauth2.xmemory.ai/authorize"@,
                "https://dk-oauth2.xmemory.ai/token"@,
                "https://dk-oauth2.xmemory.ai/userinfo"@,
            ),
        }
    }

    /// How the provider describes its users.
    pub open spec fn shape(self) -> UserShape {
        match self {
            Provider::GitHub => UserShape::Avatar,
            _ => UserShape::Picture,
        }
    }

    /// The provider with that name.
    pub fn from_slug(s: &str) -> (r: Option<Self>)
        ensures
            r == provider_named(s@),
    {
        if same_text(s, "google") {
            Some(Provider::Google)
        } else if same_text(s, "github") {
            Some(Provider::GitHub)
        } else if same_text(s, "xmemory") {
            Some(Provider::TopSecret)
        } else {
            None
        }
    }

    /// The name of the provider in paths.
    pub fn slug(&self) -> (r: &'static str)
        ensures
            r@ == self.slug_text(),
    {
        match self {
            Provider::Google => "google",
            Provider::GitHub => "github",
            Provider::TopSecret => "xmemory",
        }
    }

    /// What the provider is called.
    pub fn display_name(&self) -> (r: &'static str)
        ensures
            r@ == self.name_text(),
    {
        match self {
            Provider::Google => "google",
            Provider::GitHub => "github",
            Provider::TopSecret => "topsecret",
        }
    }

    /// The authorization endpoint.
    pub fn auth_url(&self) -> (r: &'static str)
        ensures
            r@ == self.endpoints().0,
    {
        match self {
            Provider::Google => "https://accounts.google.com/o/oauth2/v2/auth",
            Provider::GitHub => "https://github.com/login/oauth/authorize",
            Provider::TopSecret => "https://dk-oauth2.xmemory.ai/authorize",
        }
    }

    /// The token endpoint.
    pub fn token_url(&self) -> (r: &'static str)
        ensures
            r@ == self.endpoints().1,
    {
        match self {
            Provider::Google => "https://oauth2.googleapis.com/token",
            Provider::GitHub => "https://github.com/login/oauth/access_token",
            Provider::TopSecret => "https://dk-oauth2.xmemory.ai/token",
        }
    }

    /// The endpoint for the user.
    pub fn userinfo_url(&self) -> (r: &'static str)
        ensures
            r@ == self.endpoints().2,
    {
        match self {
            Provider::Google => "https://www.googleapis.com/oauth2/v3/userinfo",
            Provider::GitHub => "https://api.github.com/user",
            Provider::TopSecret => "https://dk-oauth2.xmemory.ai/userinfo",
        }
    }

    /// What the provider's users are asked to agree to.
    pub fn scopes(&self) -> (r: &'static str)
        ensures
            r@ == self.scopes_text(),
    {
        match self {
            Provider::Google => "openid email profile",
            Provider::GitHub => "read:user user:email",
            Provider::TopSecret => "openid read write",
        }
    }

    fn user_shape(&self) -> (r: UserShape)
        ensures
            r == self.shape(),
    {
        match self {
            Provider::GitHub => UserShape::Avatar,
            _ => UserShape::Picture,
        }
    }
}

/// The provider with that name in paths.
pub open spec fn provider_named(slug: Seq<char>) -> Option<Provider> {
    if slug == "google"@ {
        Some(Provider::Google)
    } else if slug == "github"@ {
        Some(Provider::GitHub)
    } else if slug == "xmemory"@ {
        Some(Provider::TopSecret)
    } else {
        None
    }
}

/// A provider's name in paths leads back to it, and to no other.
pub proof fn slugs_name_providers(p: Provider, slug: Seq<char>)
    ensures
        provider_named(slug) == Some(p) <==> slug == p.slug_text(),
{
    reveal_strlit("google");
    reveal_strlit("github");
    reveal_strlit("xmemory");
    assert("google"@[1] != "github"@[1]);
    assert("google"@.len() != "xmemory"@.len());
    assert("github"@.len() != "xmemory"@.len());
}

/// What the environment says about the providers.
#[derive(Debug)]
pub struct OAuthEnv {
    pub google_client_id: Option<String>,
    pub google_client_secret: Option<String>,
    pub github_client_id: Option<String>,
    pub github_client_secret: Option<String>,
}

/// A login that the provider has yet to send back.
#[derive(Debug)]
pub struct PendingAuth {
    pub provider: Provider,
}

/// The state of the logins.
pub struct OAuthState {
    pub google: Option<ProviderConfig>,
    pub github: Option<ProviderConfig>,
    pub topsecret: ProviderConfig,
    pub pending: StringHashMap<PendingAuth>,
    pub base_url: String,
}

/// Builds the state from the environment. Google and GitHub need both halves of their credentials;
/// topsecret has a client that is always there.
pub fn build_state(base_url: &str, env: OAuthEnv) -> (state: OAuthState)
    ensures
        state.google == credentials(env.google_client_id, env.google_client_secret),
        state.github == credentials(env.github_client_id, env.github_client_secret),
        state.topsecret.client_id@ == "default-client"@,
        state.topsecret.client_secret@ == "default-client-secret"@,
        state.pending@ == Map::<Seq<char>, PendingAuth>::empty(),
        state.base_url@ == base_url@,
{
    OAuthState {
        google: take_credentials(env.google_client_id, env.google_client_secret),
        github: take_credentials(env.github_client_id, env.github_client_secret),
        topsecret: ProviderConfig {
            client_id: "default-client".to_owned(),
            client_secret: "default-client-secret".to_owned(),
        },
        pending: StringHashMap::new(),
        base_url: base_url.to_owned(),
    }
}

/// The page that tells which environment variables are set, without their values.
pub fn login_debug(env: &OAuthEnv) -> (r: String)
    ensures
        r@ == debug_line("GOOGLE_CLIENT_ID"@, opt_text(env.google_client_id)) + "\n"@ + debug_line(
            "GOOGLE_CLIENT_SECRET"@,
            opt_text(env.google_client_secret),
        ) + "\n"@ + debug_line("GITHUB_CLIENT_ID"@, opt_text(env.github_client_id)) + "\n"@ + debug_line(
            "GITHUB_CLIENT_SECRET"@,
            opt_text(env.github_client_secret),
        ),
{
    let mut r = write_debug_line("GOOGLE_CLIENT_ID", &env.google_client_id);
    r.append("\n");
    r.append(write_debug_line("GOOGLE_CLIENT_SECRET", &env.google_client_secret).as_str());
    r.append("\n");
    r.append(write_debug_line("GITHUB_CLIENT_ID", &env.github_client_id).as_str());
    r.append("\n");
    r.append(write_debug_line("GITHUB_CLIENT_SECRET", &env.github_client_secret).as_str());
    r
}

/// The answer to the browser that begins a login.
#[derive(Debug)]
pub enum StartStep {
    /// A plain text with a status.
    Reply { status: u16, text: String },
    /// Send the browser to that URL.
    Redirect(String),
}

impl StartStep {
    /// The browser is told that.
    pub open spec fn replies(self, code: u16, message: Seq<char>) -> bool {
        self matches StartStep::Reply { status, text } && status == code && text@ == message
    }
}

impl OAuthState {
    /// The credentials with a provider.
    pub open spec fn config(self, provider: Provider) -> Option<ProviderConfig> {
        match provider {
            Provider::Google => self.google,
            Provider::GitHub => self.github,
            Provider::TopSecret => Some(self.topsecret),
        }
    }

    fn find_config(&self, provider: Provider) -> (r: Option<ProviderConfig>)
        ensures
            r == self.config(provider),
    {
        let config = match provider {
            Provider::Google => &self.google,
            Provider::GitHub => &self.github,
            Provider::TopSecret => {
                return Some(self.topsecret.copy());
            },
        };
        match config {
            Some(c) => Some(c.copy()),
            None => None,
        }
    }

    /// The providers that can be logged in with, in their order.
    pub fn login_page(&self) -> (r: Vec<ProviderInfo>)
        ensures
            info_views(r@) == (if self.google is Some {
                seq![("google"@, "google"@)]
            } else {
                Seq::empty()
            }) + (if self.github is Some {
                seq![("github"@, "github"@)]
            } else {
                Seq::empty()
            }) + seq![("xmemory"@, "topsecret"@)],
    {
        let mut r: Vec<ProviderInfo> = Vec::new();
        if self.google.is_some() {
            let p = Provider::Google;
            r.push(ProviderInfo { slug: p.slug().to_owned(), name: p.display_name().to_owned() });
        }
        if self.github.is_some() {
            let p = Provider::GitHub;
            r.push(ProviderInfo { slug: p.slug().to_owned(), name: p.display_name().to_owned() });
        }
        let p = Provider::TopSecret;
        r.push(ProviderInfo { slug: p.slug().to_owned(), name: p.display_name().to_owned() });
        assert(info_views(r@) =~= (if self.google is Some {
            seq![("google"@, "google"@)]
        } else {
            Seq::empty()
        }) + (if self.github is Some {
            seq![("github"@, "github"@)]
        } else {
            Seq::empty()
        }) + seq![("xmemory"@, "topsecret"@)]);
        r
    }

    /// Everything but the pending logins is as it was.
    pub open spec fn keeps_but_pending(self, after: Self) -> bool {
        &&& after.google == self.google
        &&& after.github == self.github
        &&& after.topsecret == self.topsecret
        &&& after.base_url == self.base_url
    }

    /// Where a login of a provider comes back to.
    pub open spec fn redirect(self, provider: Provider) -> Seq<char> {
        callback_address(self.base_url@, provider.slug_text())
    }

    /// What a login leaves behind when the browser is sent to the provider, and where it is sent.
    pub open spec fn sends_browser(
        self,
        after: Self,
        provider: Provider,
        client_id: Seq<char>,
        csrf: Seq<char>,
        step: StartStep,
    ) -> bool {
        &&& self.keeps_but_pending(after)
        &&& after.pending@ == self.pending@.insert(csrf, (PendingAuth { provider }))
        &&& step matches StartStep::Redirect(url)
        &&& url@ == authorization_request(
            provider.endpoints().0,
            client_id,
            self.redirect(provider),
            provider.scopes_text(),
            csrf,
        )
    }

    /// Begins a login. A provider that cannot be logged in with is not found.
    pub fn start_oauth(&mut self, slug: &str) -> (step: StartStep)
        ensures
            match provider_named(slug@) {
                None => *final(self) == *old(self) && step.replies(404, "unknown provider"@),
                Some(provider) => match old(self).config(provider) {
                    None => *final(self) == *old(self) && step.replies(404, "provider not configured"@),
                    Some(config) => exists|csrf: Seq<char>|
                        is_uuid_text(csrf) && #[trigger] old(self).sends_browser(
                            *final(self),
                            provider,
                            config.client_id@,
                            csrf,
                            step,
                        ),
                },
            },
            // What the login page lists can be begun, and nothing else.
            step is Reply <==> !(slug@ == "google"@ && old(self).google is Some || slug@ == "github"@ && old(
                self,
            ).github is Some || slug@ == "xmemory"@),
    {
        proof {
            lemma_slugs(slug@);
        }
        let provider = match Provider::from_slug(slug) {
            Some(p) => p,
            None => {
                return StartStep::Reply { status: 404, text: "unknown provider".to_owned() };
            },
        };
        match self.find_config(provider) {
            Some(config) => {
                let csrf = new_uuid();
                self.send_browser(provider, config, csrf)
            },
            None => StartStep::Reply { status: 404, text: "provider not configured".to_owned() },
        }
    }

    /// Keeps the login under its fresh state value, and sends the browser to the provider.
    pub fn send_browser(&mut self, provider: Provider, config: ProviderConfig, csrf: String) -> (step: StartStep)
        ensures
            old(self).sends_browser(*final(self), provider, config.client_id@, csrf@, step),
    {
        let redirect_uri = write_callback(self.base_url.as_str(), provider.slug());
        let url = write_authorization(
            provider.auth_url(),
            config.client_id.as_str(),
            redirect_uri.as_str(),
            provider.scopes(),
            csrf.as_str(),
        );
        self.pending.insert(csrf, PendingAuth { provider });
        StartStep::Redirect(url)
    }

    /// Whether the query belongs to a login with the provider that waits for it.
    pub open spec fn awaits(self, provider: Provider, state: Seq<char>) -> bool {
        self.pending@.contains_key(state) && self.pending@[state].provider == provider
    }

    /// A callback is let through: it belongs to a login that waits for it, and its code goes to the token
    /// endpoint.
    pub open spec fn lets_through(self, slug: Seq<char>, query: CallbackQuery, step: LoginStep<Provider>) -> bool {
        &&& step matches LoginStep::Token { url, params, login }
        &&& provider_named(slug) == Some(login.provider)
        &&& query.error is None
        &&& query.code matches Some(code)
        &&& query.state matches Some(state)
        &&& self.awaits(login.provider, state@)
        &&& self.config(login.provider) matches Some(config)
        &&& url@ == login.provider.endpoints().1
        &&& pair_texts(params@) == code_fields(code@, config, self.redirect(login.provider), None)
        &&& login.name@ == login.provider.name_text()
        &&& login.shape == login.provider.shape()
        &&& login.userinfo_url@ == login.provider.endpoints().2
        &&& login.introspect_url is None
    }

    /// The provider sends the user back. A state value is good for one try, whatever comes of it.
    pub fn oauth_callback(&mut self, slug: &str, query: CallbackQuery) -> (step: LoginStep<Provider>)
        ensures
            old(self).keeps_but_pending(*final(self)),
            match provider_named(slug@) {
                None => step.fails("Unknown provider"@, ""@) && final(self).pending@ == old(self).pending@,
                Some(provider) => {
                    let name = provider.name_text();
                    match (query.error, query.code, query.state) {
                        (Some(e), _, _) => step.fails("Provider error: "@ + e@, name) && final(self).pending@ == old(
                            self,
                        ).pending@,
                        (None, None, _) => step.fails("Missing authorization code"@, name) && final(self).pending@
                            == old(self).pending@,
                        (None, Some(_), None) => step.fails("Missing state parameter"@, name) && final(self).pending@
                            == old(self).pending@,
                        (None, Some(code), Some(state)) => {
                            &&& final(self).pending@ == old(self).pending@.remove(state@)
                            &&& if !old(self).awaits(provider, state@) {
                                step.fails("Invalid or expired state (CSRF check failed)"@, name)
                            } else {
                                match old(self).config(provider) {
                                    None => step.fails("Provider not configured"@, name),
                                    Some(config) => {
                                        &&& step matches LoginStep::Token { url, params, login }
                                        &&& url@ == provider.endpoints().1
                                        &&& pair_texts(params@) == code_fields(
                                            code@,
                                            config,
                                            old(self).redirect(provider),
                                            None,
                                        )
                                        &&& login.provider == provider
                                        &&& login.name@ == name
                                        &&& login.shape == provider.shape()
                                        &&& login.userinfo_url@ == provider.endpoints().2
                                        &&& login.introspect_url is None
                                    },
                                }
                            }
                        },
                    }
                },
            },
            step is Token ==> old(self).lets_through(slug@, query, step),
            step is Token <==> {
                &&& provider_named(slug@) is Some
                &&& query.error is None && query.code is Some && query.state is Some
                &&& old(self).awaits(provider_named(slug@)->0, query.state->0@)
                &&& old(self).config(provider_named(slug@)->0) is Some
            },
    {
        let provider = match Provider::from_slug(slug) {
            Some(p) => p,
            None => {
                return LoginStep::Page(render_error("Unknown provider", ""));
            },
        };
        let name = provider.display_name();
        match query.error {
            Some(e) => {
                return LoginStep::Page(render_error(joined("Provider error: ", e.as_str()).as_str(), name));
            },
            None => {},
        }
        let code = match query.code {
            Some(c) => c,
            None => {
                return LoginStep::Page(render_error("Missing authorization code", name));
            },
        };
        let state = match query.state {
            Some(s) => s,
            None => {
                return LoginStep::Page(render_error("Missing state parameter", name));
            },
        };
        let waiting = match self.pending.get(state.as_str()) {
            Some(p) => p.provider == provider,
            None => false,
        };
        self.pending.remove(state.as_str());
        if !waiting {
            return LoginStep::Page(render_error("Invalid or expired state (CSRF check failed)", name));
        }
        let config = match self.find_config(provider) {
            Some(c) => c,
            None => {
                return LoginStep::Page(render_error("Provider not configured", name));
            },
        };
        let redirect_uri = write_callback(self.base_url.as_str(), provider.slug());
        let none: Option<String> = None;
        LoginStep::Token {
            url: provider.token_url().to_owned(),
            params: write_code_fields(code.as_str(), &config, redirect_uri.as_str(), &none),
            login: PendingLogin {
                provider,
                name: name.to_owned(),
                shape: provider.user_shape(),
                userinfo_url: provider.userinfo_url().to_owned(),
                introspect_url: None,
            },
        }
    }
}

/// Where the user is answered for, the page shows the user.
pub open spec fn greets(login: PendingLogin<Provider>, fetched: Fetched, page: LoginResult) -> bool {
    answer_of(fetched) matches AnswerView::Document(json) ==> shows_user(page, login.name@, login.shape, json)
}

/// The user was answered for: the page shows the user, and no session begins.
pub fn logged_in(login: PendingLogin<Provider>, fetched: Fetched) -> (page: LoginResult)
    ensures
        match answer_of(fetched) {
            AnswerView::Unsent(e) => page.fails("Userinfo request failed: "@ + e, login.name@),
            AnswerView::Unreadable(e) => page.fails("Userinfo parse error: "@ + e, login.name@),
            AnswerView::Document(json) => {
                &&& shows_user(page, login.name@, login.shape, json)
                &&& page.session_id@.len() == 0
                &&& page.curl_userinfo@.len() == 0
                &&& page.curl_introspect@.len() == 0
            },
        },
        greets(login, fetched, page),
{
    match user_answered(&login, fetched) {
        Ok(page) => page,
        Err(page) => page,
    }
}

/// The provider that a browser was sent to can send it back, once, and no other provider can.
pub proof fn a_login_comes_back_once(
    before: OAuthState,
    after: OAuthState,
    provider: Provider,
    client_id: Seq<char>,
    csrf: Seq<char>,
    step: StartStep,
)
    requires
        before.sends_browser(after, provider, client_id, csrf, step),
    ensures
        after.awaits(provider, csrf),
        forall|other: Provider| other != provider ==> !after.awaits(other, csrf),
        !after.pending@.remove(csrf).contains_key(csrf),
{
}

proof fn lemma_slugs(slug: Seq<char>)
    ensures
        slug == "google"@ ==> provider_named(slug) == Some(Provider::Google),
        slug == "github"@ ==> provider_named(slug) == Some(Provider::GitHub),
        slug == "xmemory"@ ==> provider_named(slug) == Some(Provider::TopSecret),
{
    slugs_name_providers(Provider::Google, slug);
    slugs_name_providers(Provider::GitHub, slug);
    slugs_name_providers(Provider::TopSecret, slug);
}

/// What the browser is sent to is the authorization endpoint of the provider, with the client, the
/// callback below the site, the provider's scopes and the state value under which the login waits.
pub proof fn the_browser_is_sent_to_the_provider(
    before: OAuthState,
    after: OAuthState,
    provider: Provider,
    client_id: Seq<char>,
    csrf: Seq<char>,
    step: StartStep,
)
    requires
        before.sends_browser(after, provider, client_id, csrf, step),
    ensures
        step is Redirect,
        after.pending@.contains_key(csrf),
        ({
            let url = step->Redirect_0@;
            let asked = "?client_id="@ + query_value(client_id) + "&"@;
            let site = before.base_url@ + "/login/"@;
            &&& provider == Provider::Google ==> {
                &&& ("https://accounts.google.com/o/oauth2/v2/auth"@ + asked).is_prefix_of(url)
                &&& contains_part(url, "&redirect_uri="@ + query_value(site + "google"@ + "/callback"@) + "&"@)
                &&& contains_part(url, "&scope="@ + query_value("openid email profile"@) + "&"@)
            }
            &&& provider == Provider::GitHub ==> {
                &&& ("https://github.com/login/oauth/authorize"@ + asked).is_prefix_of(url)
                &&& contains_part(url, "&redirect_uri="@ + query_value(site + "github"@ + "/callback"@) + "&"@)
                &&& contains_part(url, "&scope="@ + query_value("read:user user:email"@) + "&"@)
            }
            &&& provider == Provider::TopSecret ==> {
                &&& ("https://dk-oauth2.xmemory.ai/authorize"@ + asked).is_prefix_of(url)
                &&& contains_part(url, "&redirect_uri="@ + query_value(site + "xmemory"@ + "/callback"@) + "&"@)
                &&& contains_part(url, "&scope="@ + query_value("openid read write"@) + "&"@)
            }
            &&& contains_part(url, "&state="@ + query_value(csrf) + "&"@)
            &&& contains_part(url, "&response_type=code"@)
        }),
{
    an_authorization_request_names_everything(
        provider.endpoints().0,
        client_id,
        before.redirect(provider),
        provider.scopes_text(),
        csrf,
    );
}

/// A callback that is let through is exchanged at the token endpoint of its provider, with the code that
/// it brought, the credentials of this site and the callback below the site, and no verifier.
pub proof fn the_token_request_carries_the_credentials(
    state: OAuthState,
    slug: Seq<char>,
    query: CallbackQuery,
    step: LoginStep<Provider>,
)
    requires
        state.lets_through(slug, query, step),
    ensures
        step is Token,
        slug == "google"@ || slug == "github"@ || slug == "xmemory"@,
        query.error is None && query.code is Some && query.state is Some,
        state.pending@.contains_key(query.state->0@),
        ({
            let url = step->Token_url@;
            let login = step->Token_login;
            let fields = pair_texts(step->params@);
            let config = if slug == "google"@ {
                state.google
            } else if slug == "github"@ {
                state.github
            } else {
                Some(state.topsecret)
            };
            &&& slug == "google"@ ==> {
                &&& url == "https://oauth2.googleapis.com/token"@
                &&& login.userinfo_url@ == "https://www.googleapis.com/oauth2/v3/userinfo"@
            }
            &&& slug == "github"@ ==> {
                &&& url == "https://github.com/login/oauth/access_token"@
                &&& login.userinfo_url@ == "https://api.github.com/user"@
            }
            &&& slug == "xmemory"@ ==> {
                &&& url == "https://dk-oauth2.xmemory.ai/token"@
                &&& login.userinfo_url@ == "https://dk-oauth2.xmemory.ai/userinfo"@
            }
            &&& config is Some
            &&& holds_only(fields, "grant_type"@, "authorization_code"@)
            &&& holds_only(fields, "code"@, query.code->0@)
            &&& holds_only(fields, "client_id"@, config->0.client_id@)
            &&& holds_only(fields, "client_secret"@, config->0.client_secret@)
            &&& holds_only(fields, "redirect_uri"@, state.base_url@ + "/login/"@ + slug + "/callback"@)
            &&& holds_none(fields, "code_verifier"@)
        }),
{
    lemma_slugs(slug);
    let login = step->Token_login;
    slugs_name_providers(login.provider, slug);
    a_token_request_carries_everything(
        query.code->0@,
        state.config(login.provider)->0,
        state.redirect(login.provider),
        None,
    );
}

/// A user who logs in with GitHub is shown with the avatar that GitHub's answer holds, and by name or else
/// by login; anyone else with the picture and by name.
pub proof fn users_are_shown_as_their_provider_describes_them(
    state: OAuthState,
    slug: Seq<char>,
    query: CallbackQuery,
    step: LoginStep<Provider>,
    answer: Answer,
    json: JsonView,
    page: LoginResult,
)
    requires
        state.lets_through(slug, query, step),
        answer.body matches Ok(bytes) && parsed(bytes@) == Ok::<JsonView, Seq<char>>(json),
        greets(step->Token_login, Fetched::Answer(answer), page),
    ensures
        page.success,
        slug == "github"@ ==> {
            &&& page.avatar_url@ == text_member(json, "avatar_url"@)
            &&& page.user_name@ == if member(json, "name"@) matches Some(JsonView::Text(_)) {
                text_member(json, "name"@)
            } else {
                text_member(json, "login"@)
            }
        },
        slug != "github"@ ==> {
            &&& page.avatar_url@ == text_member(json, "picture"@)
            &&& page.user_name@ == text_member(json, "name"@)
        },
        slug == "xmemory"@ ==> page.provider_name@ == "topsecret"@,
        slug != "xmemory"@ ==> page.provider_name@ == slug,
        page.user_email@ == text_member(json, "email"@),
        page.raw_json@ == pretty(json),
        page.error_message@.len() == 0,
{
    lemma_slugs(slug);
    let login = step->Token_login;
    slugs_name_providers(login.provider, slug);
    slugs_name_providers(Provider::GitHub, slug);
    documents_are_taken_whatever_their_status(answer, json);
}

} // verus!
