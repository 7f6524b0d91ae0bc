//! The page to which the authorization server sends the user back.
use vstd::prelude::*;
use vstd::string::*;

use crate::encoding::{holds_none, holds_only, lemma_holds_only, pair, pair_texts, s256_challenge};
use crate::exchange::{documents_of_success_are_usable, is_success, Answer, Fetched};
use crate::json::{member, member_string, parsed, JsonView};
use crate::mcpclient::challenge::{callback_url, oauth_redirect, the_callback_lies_below_the_base};
use crate::mcpclient::connect::a_refresh_carries_what_is_kept;
use crate::mcpclient::flow::{authorization_params, authorization_url, FlowNext};
use crate::mcpclient::McpClientState;
use crate::text::{contains_part, joined, lemma_contains_between, opt_text, same_text, trimmed_end};
use crate::urls::{canonical_resource, resource_identifier};

verus! {

/// What the authorization server sends along.
#[derive(Debug)]
pub struct OAuthCallbackParams {
    pub code: Option<String>,
    pub state: Option<String>,
    pub error: Option<String>,
}

/// What the callback does: show a page, or exchange the code for a token.
#[derive(Debug)]
pub enum CallbackNext {
    Page(String),
    Exchange { url: String, params: Vec<(String, String)> },
}

/// What a callback's next step says.
pub enum CallbackView {
    Page(Seq<char>),
    Exchange { url: Seq<char>, params: Seq<(Seq<char>, Seq<char>)> },
}

impl View for CallbackNext {
    type V = CallbackView;

    open spec fn view(&self) -> CallbackView {
        match self {
            CallbackNext::Page(html) => CallbackView::Page(html@),
            CallbackNext::Exchange { url, params } => CallbackView::Exchange { url: url@, params: pair_texts(params@) },
        }
    }
}

// -- Pages.

/// A page with a heading and a paragraph.
pub open spec fn notice(title: Seq<char>, message: Seq<char>) -> Seq<char> {
    "<html><body><h2>"@ + title + "</h2><p>"@ + message + "</p></body></html>"@
}

fn notice_page(title: &str, message: &str) -> (r: String)
    ensures
        r@ == notice(title@, message@),
{
    let mut r = joined("<html><body><h2>", title);
    r.append("</h2><p>");
    r.append(message);
    r.append("</p></body></html>");
    r
}

/// The page for an answer that refuses the code.
pub open spec fn refusal(status: Seq<char>, text: Seq<char>) -> Seq<char> {
    "<html><body><h2>Token Error</h2><p>HTTP "@ + status + "</p><pre>"@ + text + "</pre></body></html>"@
}

fn refusal_page(status: &str, text: &str) -> (r: String)
    ensures
        r@ == refusal(status@, text@),
{
    let mut r = joined("<html><body><h2>Token Error</h2><p>HTTP ", status);
    r.append("</p><pre>");
    r.append(text);
    r.append("</pre></body></html>");
    r
}

/// The page that closes itself and lets the client connect.
pub const AUTHORIZED_PAGE: &'static str =
    "<html><body>\n<h2>Authorized!</h2>\n<p>Connecting to MCP server…</p>\n<script>\nif (window.opener) {\n  window.opener.postMessage({type:'mcp-oauth-complete'}, '*');\n}\nsetTimeout(function(){ window.close(); }, 800);\n</script>\n</body></html>";

// -- The token request.

/// The parameters of a token request.
pub open spec fn token_params(
    code: Seq<char>,
    redirect_uri: Seq<char>,
    client_id: Seq<char>,
    resource: Seq<char>,
    verifier: Option<Seq<char>>,
    secret: Option<Seq<char>>,
) -> Seq<(Seq<char>, Seq<char>)> {
    let base = seq![
        ("grant_type"@, "authorization_code"@),
        ("code"@, code),
        ("redirect_uri"@, redirect_uri),
        ("client_id"@, client_id),
        ("resource"@, resource),
    ];
    let proved = match verifier {
        Some(v) => base.push(("code_verifier"@, v)),
        None => base,
    };
    match secret {
        Some(s) => proved.push(("client_secret"@, s)),
        None => proved,
    }
}

/// A text, or the empty one.
pub open spec fn or_empty(text: Option<String>) -> Seq<char> {
    match text {
        Some(t) => t@,
        None => Seq::empty(),
    }
}

impl<C> McpClientState<C> {
    /// What the callback does with what the authorization server sent along: an error and a
    /// missing code are shown; a state value other than the expected one is turned away; then the
    /// code is exchanged at the server's token endpoint, if there is one.
    pub open spec fn answers(self, params: OAuthCallbackParams) -> CallbackView {
        match params.error {
            Some(err) => CallbackView::Page(notice("Authorization Error"@, err@)),
            None => match params.code {
                None => CallbackView::Page(notice("Error"@, "No authorization code received."@)),
                Some(code) => if self.oauth_state is Some && opt_text(params.state) != opt_text(self.oauth_state) {
                    CallbackView::Page(notice("Error"@, "State mismatch."@))
                } else if self.auth_server_metadata is None {
                    CallbackView::Page(notice("Error"@, "No auth server metadata."@))
                } else {
                    match self.endpoint("token_endpoint"@) {
                        None => CallbackView::Page(notice("Error"@, "No token_endpoint."@)),
                        Some(url) => CallbackView::Exchange {
                            url,
                            params: token_params(
                                code@,
                                callback_url(self.base_url@),
                                or_empty(self.client_id),
                                resource_identifier(self.mcp_url@),
                                opt_text(self.pkce_verifier),
                                opt_text(self.client_secret),
                            ),
                        },
                    }
                },
            },
        }
    }

    /// Answers the authorization server's callback.
    pub fn oauth_callback(&self, params: OAuthCallbackParams) -> (next: CallbackNext)
        ensures
            next@ == self.answers(params),
            next is Exchange && self.oauth_state is Some ==> opt_text(params.state) == opt_text(self.oauth_state),
    {
        match params.error {
            Some(err) => {
                return CallbackNext::Page(notice_page("Authorization Error", err.as_str()));
            },
            None => {},
        }
        let code = match params.code {
            Some(c) => c,
            None => {
                return CallbackNext::Page(notice_page("Error", "No authorization code received."));
            },
        };
        match &self.oauth_state {
            Some(expected) => {
                let matching = match &params.state {
                    Some(s) => same_text(s.as_str(), expected.as_str()),
                    None => false,
                };
                if !matching {
                    return CallbackNext::Page(notice_page("Error", "State mismatch."));
                }
            },
            None => {},
        }
        let endpoint = match &self.auth_server_metadata {
            Some(m) => m.get_str("token_endpoint"),
            None => {
                return CallbackNext::Page(notice_page("Error", "No auth server metadata."));
            },
        };
        match endpoint {
            None => CallbackNext::Page(notice_page("Error", "No token_endpoint.")),
            Some(url) => {
                let callback = oauth_redirect(self.base_url.as_str());
                let resource = canonical_resource(self.mcp_url.as_str());
                let id = match &self.client_id {
                    Some(id) => id.clone(),
                    None => String::new(),
                };
                let mut form: Vec<(String, String)> = Vec::new();
                form.push(pair("grant_type", "authorization_code"));
                form.push(pair("code", code.as_str()));
                form.push(pair("redirect_uri", callback.as_str()));
                form.push(pair("client_id", id.as_str()));
                form.push(pair("resource", resource.as_str()));
                match &self.pkce_verifier {
                    Some(v) => form.push(pair("code_verifier", v.as_str())),
                    None => {},
                }
                match &self.client_secret {
                    Some(s) => form.push(pair("client_secret", s.as_str())),
                    None => {},
                }
                assert(pair_texts(form@) =~= token_params(
                    code@,
                    callback@,
                    id@,
                    resource@,
                    opt_text(self.pkce_verifier),
                    opt_text(self.client_secret),
                ));
                CallbackNext::Exchange { url, params: form }
            },
        }
    }

    /// What is kept of an answer of the token endpoint.
    pub open spec fn keeps_tokens(self, after: McpClientState<C>, fetched: Fetched) -> bool {
        match fetched.usable() {
            Some(json) => {
                &&& opt_text(after.access_token) == member_string(json, "access_token"@)
                &&& opt_text(after.refresh_token) == member_string(json, "refresh_token"@)
                &&& after == (McpClientState {
                    access_token: after.access_token,
                    refresh_token: after.refresh_token,
                    ..self
                })
            },
            None => after == self,
        }
    }

    /// Keeps the tokens that the token endpoint answered, and writes the page to show.
    pub fn token_reply(&mut self, fetched: Fetched) -> (page: String)
        ensures
            *final(self) == (McpClientState {
                access_token: final(self).access_token,
                refresh_token: final(self).refresh_token,
                ..*old(self)
            }),
            match fetched.usable() {
                Some(json) => opt_text(final(self).access_token) == member_string(json, "access_token"@) && opt_text(
                    final(self).refresh_token,
                ) == member_string(json, "refresh_token"@) && page@ == AUTHORIZED_PAGE@,
                None => *final(self) == *old(self) && page@ == (match fetched {
                    Fetched::Answer(a) => if is_success(a.status) {
                        notice("Error"@, "Failed to parse token response."@)
                    } else {
                        refusal(a.status_text@, a.text())
                    },
                    Fetched::Failed(e) => notice("Token Error"@, e@),
                }),
            },
            old(self).keeps_tokens(*final(self), fetched),
    {
        match fetched {
            Fetched::Answer(a) => if a.succeeded() {
                match a.json() {
                    Ok(json) => {
                        self.access_token = json.get_str("access_token");
                        self.refresh_token = json.get_str("refresh_token");
                        AUTHORIZED_PAGE.to_owned()
                    },
                    Err(_) => notice_page("Error", "Failed to parse token response."),
                }
            } else {
                let text = a.body_text();
                refusal_page(a.status_text.as_str(), text.as_str())
            },
            Fetched::Failed(e) => notice_page("Token Error", e.as_str()),
        }
    }
}

/// The token request that follows an authorization request proves itself with the verifier whose
/// challenge the authorization request carried, and names the same client, the same callback and
/// the same resource: when the user comes back with the code and the state value that went out,
/// the code is exchanged with exactly those values.
pub proof fn token_request_answers_the_authorization_request<C>(
    before: McpClientState<C>,
    after: McpClientState<C>,
    challenge: Seq<(Seq<char>, Seq<char>)>,
    next: FlowNext,
    back: OAuthCallbackParams,
)
    requires
        before.sends_user(after, challenge, next),
        next is Done && next->Done_0 is Ok,
        after.endpoint("token_endpoint"@) is Some,
        back.error is None,
        back.code is Some,
        opt_text(back.state) == opt_text(after.oauth_state),
    ensures
        next->Done_0->Ok_0@ == authorization_url(
            after.endpoint("authorization_endpoint"@)->0,
            authorization_params(
                or_empty(after.client_id),
                callback_url(after.base_url@),
                after.oauth_state->0@,
                s256_challenge(after.pkce_verifier->0@),
                resource_identifier(after.mcp_url@),
                opt_text(after.scopes),
            ),
        ),
        after.answers(back) == (CallbackView::Exchange {
            url: after.endpoint("token_endpoint"@)->0,
            params: token_params(
                back.code->0@,
                callback_url(after.base_url@),
                or_empty(after.client_id),
                resource_identifier(after.mcp_url@),
                Some(after.pkce_verifier->0@),
                opt_text(after.client_secret),
            ),
        }),
        after.answers(back) matches CallbackView::Exchange { url, params } && holds_only(
            params,
            "code_verifier"@,
            after.pkce_verifier->0@,
        ) && holds_only(params, "code"@, back.code->0@) && holds_only(params, "client_id"@, after.client_id->0@)
            && holds_only(params, "resource"@, resource_identifier(after.mcp_url@)) && holds_only(
            params,
            "redirect_uri"@,
            callback_url(after.base_url@),
        ) && match after.client_secret {
            Some(s) => holds_only(params, "client_secret"@, s@),
            None => holds_none(params, "client_secret"@),
        },
{
    the_exchange_carries_what_is_kept(after, back);
    the_callback_lies_below_the_base(after.base_url@);
}

/// Whatever else is kept, an exchange proves itself with the verifier that is kept and gives the
/// secret that is kept, each exactly where there is one; it always names the code that came, the
/// client, the callback and the resource.
pub proof fn the_exchange_carries_what_is_kept<C>(state: McpClientState<C>, back: OAuthCallbackParams)
    requires
        state.answers(back) is Exchange,
    ensures
        back.error is None,
        back.code is Some,
        state.auth_server_metadata matches Some(m) && member_string(m@, "token_endpoint"@) == Some(
            state.answers(back)->url,
        ),
        ({
            let params = state.answers(back)->params;
            &&& holds_only(params, "grant_type"@, "authorization_code"@)
            &&& holds_only(params, "code"@, back.code->0@)
            &&& holds_only(
                params,
                "redirect_uri"@,
                trimmed_end(state.base_url@, '/') + "/mcpclient/oauth/callback"@,
            )
            &&& holds_only(
                params,
                "client_id"@,
                match state.client_id {
                    Some(id) => id@,
                    None => Seq::empty(),
                },
            )
            &&& holds_only(params, "resource"@, resource_identifier(state.mcp_url@))
            &&& match state.pkce_verifier {
                Some(v) => holds_only(params, "code_verifier"@, v@),
                None => holds_none(params, "code_verifier"@),
            }
            &&& match state.client_secret {
                Some(s) => holds_only(params, "client_secret"@, s@),
                None => holds_none(params, "client_secret"@),
            }
        }),
{
    reveal_strlit("grant_type");
    reveal_strlit("code");
    reveal_strlit("redirect_uri");
    reveal_strlit("client_id");
    reveal_strlit("resource");
    reveal_strlit("code_verifier");
    reveal_strlit("client_secret");
    let params = state.answers(back)->params;
    assert("code_verifier"@[2] != "client_secret"@[2]);
    assert(params[0].0 == "grant_type"@ && params[1].0 == "code"@ && params[2].0 == "redirect_uri"@ && params[3].0
        == "client_id"@ && params[4].0 == "resource"@);
    the_callback_lies_below_the_base(state.base_url@);
    lemma_holds_only(params, 0);
    lemma_holds_only(params, 1);
    lemma_holds_only(params, 2);
    lemma_holds_only(params, 3);
    lemma_holds_only(params, 4);
    if state.pkce_verifier is Some {
        lemma_holds_only(params, 5);
        if state.client_secret is Some {
            lemma_holds_only(params, 6);
        }
    } else if state.client_secret is Some {
        lemma_holds_only(params, 5);
    }
}

/// A callback that brings a code, no error and the state value that went out is exchanged, wherever the
/// server's metadata names a token endpoint; and without a code nothing is.
pub proof fn the_code_is_exchanged<C>(state: McpClientState<C>, back: OAuthCallbackParams)
    ensures
        state.answers(back) is Exchange <==> {
            &&& back.error is None
            &&& back.code is Some
            &&& state.oauth_state matches Some(expected) ==> back.state matches Some(s) && s@ == expected@
            &&& state.auth_server_metadata matches Some(m) && member_string(m@, "token_endpoint"@) is Some
        },
{
}

/// Once a state value went out, a callback that does not bring it back never reaches the token
/// endpoint.
pub proof fn foreign_callback_is_turned_away<C>(state: McpClientState<C>, back: OAuthCallbackParams)
    requires
        state.oauth_state is Some,
        opt_text(back.state) != opt_text(state.oauth_state),
    ensures
        state.answers(back) is Page,
{
}

/// A page shows its title and its message; the page for a refused code shows the status and what the token
/// endpoint said.
pub proof fn pages_show_their_messages(title: Seq<char>, message: Seq<char>)
    ensures
        contains_part(notice(title, message), "<h2>"@ + title + "</h2>"@),
        contains_part(notice(title, message), "<p>"@ + message + "</p>"@),
        contains_part(refusal(title, message), "HTTP "@ + title + "</p>"@),
        contains_part(refusal(title, message), "<pre>"@ + message + "</pre>"@),
{
    reveal_strlit("<html><body><h2>");
    reveal_strlit("<h2>");
    reveal_strlit("</h2>");
    reveal_strlit("</h2><p>");
    reveal_strlit("<p>");
    reveal_strlit("</p>");
    reveal_strlit("</p></body></html>");
    reveal_strlit("<html><body><h2>Token Error</h2><p>HTTP ");
    reveal_strlit("HTTP ");
    reveal_strlit("</p><pre>");
    reveal_strlit("<pre>");
    reveal_strlit("</pre>");
    reveal_strlit("</pre></body></html>");
    let start = "<html><body><h2>"@;
    let middle = "</h2><p>"@;
    let end = "</p></body></html>"@;
    let a = "<h2>"@ + title + "</h2>"@;
    assert(notice(title, message) =~= start.take(12) + a + (middle.skip(5) + message + end));
    lemma_contains_between(start.take(12), a, middle.skip(5) + message + end);
    let b = "<p>"@ + message + "</p>"@;
    assert(notice(title, message) =~= start + title + middle.take(5) + b + end.skip(4));
    lemma_contains_between(start + title + middle.take(5), b, end.skip(4));
    let refused = "<html><body><h2>Token Error</h2><p>HTTP "@;
    let between = "</p><pre>"@;
    let last = "</pre></body></html>"@;
    let c = "HTTP "@ + title + "</p>"@;
    let n = refused.len() - 5;
    assert(refused.skip(n) =~= "HTTP "@);
    assert(refusal(title, message) =~= refused.take(n) + c + (between.skip(4) + message + last));
    lemma_contains_between(refused.take(n), c, between.skip(4) + message + last);
    let d = "<pre>"@ + message + "</pre>"@;
    assert(refusal(title, message) =~= refused + title + between.take(4) + d + last.skip(6));
    lemma_contains_between(refused + title + between.take(4), d, last.skip(6));
}

/// The tokens that a code is exchanged for are kept, and the refresh token among them is the one that a later
/// refresh sends; an answer that is no success changes nothing.
pub proof fn the_tokens_of_an_exchange_are_kept<C>(before: McpClientState<C>, after: McpClientState<C>, answer: Answer)
    requires
        before.keeps_tokens(after, Fetched::Answer(answer)),
        answer.body matches Ok(bytes) && parsed(bytes@) is Ok,
    ensures
        answer.status < 200 || answer.status >= 300 ==> after == before,
        200 <= answer.status < 300 ==> {
            let json = parsed(answer.body->Ok_0@)->Ok_0;
            &&& member(json, "access_token"@) matches Some(JsonView::Text(t)) ==> opt_text(after.access_token) == Some(t)
            &&& member(json, "refresh_token"@) matches Some(JsonView::Text(t)) ==> {
                &&& opt_text(after.refresh_token) == Some(t)
                &&& after.refresh() matches Some((_, fields)) ==> holds_only(fields, "refresh_token"@, t)
            }
            &&& member(json, "refresh_token"@) is None ==> after.refresh_token is None
            &&& after.client_id == before.client_id && after.client_secret == before.client_secret
            &&& after.mcp_url == before.mcp_url && after.scopes == before.scopes
        },
{
    documents_of_success_are_usable(answer);
    a_refresh_carries_what_is_kept(after);
}

/// An error that the authorization server sends back is shown, whatever else it sends; and without a code,
/// without the state value that went out, or without a token endpoint a page says so.
pub proof fn the_callback_says_what_went_wrong<C>(state: McpClientState<C>, back: OAuthCallbackParams)
    ensures
        back.error matches Some(e) ==> state.answers(back) is Page && contains_part(
            state.answers(back)->Page_0,
            "<p>"@ + e@ + "</p>"@,
        ),
        back.error is None && back.code is None ==> state.answers(back) is Page && contains_part(
            state.answers(back)->Page_0,
            "<p>"@ + "No authorization code received."@ + "</p>"@,
        ),
        back.error is None && back.code is Some && (state.oauth_state matches Some(expected) && !(back.state matches Some(
            s,
        ) && s@ == expected@)) ==> state.answers(back) is Page && contains_part(
            state.answers(back)->Page_0,
            "<p>"@ + "State mismatch."@ + "</p>"@,
        ),
{
    if back.error is Some {
        pages_show_their_messages("Authorization Error"@, back.error->0@);
    }
    pages_show_their_messages("Error"@, "No authorization code received."@);
    pages_show_their_messages("Error"@, "State mismatch."@);
}

} // verus!
