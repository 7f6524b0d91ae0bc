//! The authorization flow: discovering a server's metadata, registering with its authorization
//! server, and sending the user there.
use vstd::prelude::*;
use vstd::string::*;
use vstd::utf8::*;

use crate::encoding::{
    base64url, form_encoded, form_urlencoded, holds_none, holds_only, lemma_holds_only, pair, pair_texts,
    s256_challenge, sha256,
};
use crate::exchange::{documents_of_success_are_usable, Answer, Fetched};
use crate::json::{
    member, member_items, member_string, member_views, opt_view, parsed, string_of, text_json, the_first_member_counts,
    views, Json, JsonView,
};
use crate::mcpclient::challenge::{
    callback_url, challenge_params, client_origin, get_www_auth_param, is_drawn, local_origin, oauth_redirect,
    param_value, parse_www_authenticate, pkce_pair, random_state, the_callback_lies_below_the_base,
};
use crate::mcpclient::McpClientState;
use crate::text::{joined, opt_text, same_text, texts, trim_end_char, trimmed_end};
use crate::urls::{
    at_origin, canonical_resource, origin_with, parse_url, parsed_url, resource_identifier, UrlParts, UrlView,
};

verus! {

/// Where the flow stands while a request is out.
#[derive(Debug)]
pub enum FlowPhase {
    /// Looking for the resource metadata; `asked` is the candidate that was asked last.
    Resource { params: Vec<(String, String)>, candidates: Vec<String>, asked: usize },
    /// Looking for the authorization server's metadata.
    Server { params: Vec<(String, String)>, candidates: Vec<String>, asked: usize },
    /// Registering as a client.
    Registration { params: Vec<(String, String)> },
}

/// A request of the flow.
#[derive(Debug)]
pub enum FlowAction {
    Get(String),
    Register { url: String, body: Json },
}

/// What the flow does next: a request, or its end with the URL to send the user to or the reason
/// why there is none.
#[derive(Debug)]
pub enum FlowNext {
    Ask(FlowPhase, FlowAction),
    Done(Result<String, String>),
}

impl FlowPhase {
    /// The candidate that was asked is one of the candidates.
    pub open spec fn wf(self) -> bool {
        match self {
            FlowPhase::Resource { candidates, asked, .. } => asked < candidates@.len(),
            FlowPhase::Server { candidates, asked, .. } => asked < candidates@.len(),
            FlowPhase::Registration { .. } => true,
        }
    }
}

impl FlowPhase {
    /// How many kinds of requests are still to come.
    pub open spec fn stage(self) -> nat {
        match self {
            FlowPhase::Resource { .. } => 2,
            FlowPhase::Server { .. } => 1,
            FlowPhase::Registration { .. } => 0,
        }
    }

    /// How many places are still to be asked.
    pub open spec fn left(self) -> int {
        match self {
            FlowPhase::Resource { candidates, asked, .. } => candidates@.len() - asked,
            FlowPhase::Server { candidates, asked, .. } => candidates@.len() - asked,
            FlowPhase::Registration { .. } => 0,
        }
    }
}

impl FlowNext {
    /// The phase that is waited in is well formed.
    pub open spec fn wf(self) -> bool {
        self matches FlowNext::Ask(phase, _) ==> phase.wf()
    }

    /// The flow ends for that reason.
    pub open spec fn fails_with(self, reason: Seq<char>) -> bool {
        self matches FlowNext::Done(Err(e)) && e@ == reason
    }

    /// The flow asks for that URL.
    pub open spec fn gets(self, url: Seq<char>) -> bool {
        self matches FlowNext::Ask(_, FlowAction::Get(u)) && u@ == url
    }
}

// -- Where metadata may be found.

/// The path of a URL says more than that it is the root.
pub open spec fn has_path(url: UrlView) -> bool {
    url.path != "/"@ && url.path.len() > 0
}

/// Where resource metadata may be found: where the challenge says, below the well-known prefix for
/// the server's own path, and at the well-known place itself.
pub open spec fn resource_places(params: Seq<(Seq<char>, Seq<char>)>, url: UrlView) -> Seq<Seq<char>> {
    let told = match param_value(params, "resource_metadata"@) {
        Some(u) => seq![u],
        None => Seq::empty(),
    };
    let own = if has_path(url) {
        seq![at_origin(url, "/.well-known/oauth-protected-resource"@ + url.path)]
    } else {
        Seq::empty()
    };
    told + own + seq![at_origin(url, "/.well-known/oauth-protected-resource"@)]
}

/// Lists where resource metadata may be found.
pub fn resource_candidates(params: &Vec<(String, String)>, url: &UrlParts) -> (r: Vec<String>)
    ensures
        texts(r@) == resource_places(pair_texts(params@), url@),
        r@.len() > 0,
{
    let mut r: Vec<String> = Vec::new();
    match get_www_auth_param(params, "resource_metadata") {
        Some(u) => {
            r.push(u);
        },
        None => {},
    }
    if !same_text(url.path.as_str(), "/") && !url.path.as_str().is_empty() {
        let path = joined("/.well-known/oauth-protected-resource", url.path.as_str());
        r.push(origin_with(url, path.as_str()));
    }
    r.push(origin_with(url, "/.well-known/oauth-protected-resource"));
    assert(texts(r@) =~= resource_places(pair_texts(params@), url@));
    r
}

/// Where the metadata of an authorization server may be found.
pub open spec fn server_places(issuer: Seq<char>, url: UrlView) -> Seq<Seq<char>> {
    if has_path(url) {
        seq![
            trimmed_end(issuer, '/') + "/.well-known/openid-configuration"@,
            at_origin(url, "/.well-known/openid-configuration"@ + url.path),
            at_origin(url, "/.well-known/oauth-authorization-server"@ + url.path),
        ]
    } else {
        seq![
            at_origin(url, "/.well-known/openid-configuration"@),
            at_origin(url, "/.well-known/oauth-authorization-server"@),
        ]
    }
}

/// Lists where the metadata of an authorization server may be found.
pub fn server_candidates(issuer: &str, url: &UrlParts) -> (r: Vec<String>)
    ensures
        texts(r@) == server_places(issuer@, url@),
        r@.len() > 0,
{
    let mut r: Vec<String> = Vec::new();
    if !same_text(url.path.as_str(), "/") && !url.path.as_str().is_empty() {
        let base = trim_end_char(issuer, '/');
        r.push(joined(base.as_str(), "/.well-known/openid-configuration"));
        let openid = joined("/.well-known/openid-configuration", url.path.as_str());
        r.push(origin_with(url, openid.as_str()));
        let oauth = joined("/.well-known/oauth-authorization-server", url.path.as_str());
        r.push(origin_with(url, oauth.as_str()));
    } else {
        r.push(origin_with(url, "/.well-known/openid-configuration"));
        r.push(origin_with(url, "/.well-known/oauth-authorization-server"));
    }
    assert(texts(r@) =~= server_places(issuer@, url@));
    r
}

/// The first authorization server that resource metadata names.
pub open spec fn first_issuer(metadata: JsonView) -> Option<Seq<char>> {
    match member_items(metadata, "authorization_servers"@) {
        Some(items) => if items.len() > 0 {
            string_of(items[0])
        } else {
            None
        },
        None => None,
    }
}

/// The first authorization server that resource metadata names.
pub fn issuer_of(metadata: &Json) -> (r: Option<String>)
    ensures
        opt_text(r) == first_issuer(metadata@),
{
    match metadata.get_items("authorization_servers") {
        Some(items) => if items.len() > 0 {
            assert(views(items@)[0] == items@[0]@);
            match items[0].as_str() {
                Some(s) => Some(s.clone()),
                None => None,
            }
        } else {
            None
        },
        None => None,
    }
}

// -- Scopes.

/// The strings among the items, joined by spaces.
pub open spec fn joined_strings(items: Seq<JsonView>) -> Seq<char>
    decreases items.len(),
{
    if items.len() == 0 {
        Seq::empty()
    } else {
        match string_of(items.last()) {
            Some(s) => if strings_in(items.drop_last()) == 0 {
                s
            } else {
                joined_strings(items.drop_last()) + " "@ + s
            },
            None => joined_strings(items.drop_last()),
        }
    }
}

/// The number of strings among the items.
pub open spec fn strings_in(items: Seq<JsonView>) -> nat
    decreases items.len(),
{
    if items.len() == 0 {
        0
    } else {
        strings_in(items.drop_last()) + if string_of(items.last()) is Some {
            1nat
        } else {
            0nat
        }
    }
}

fn join_strings(items: &Vec<Json>) -> (r: String)
    ensures
        r@ == joined_strings(views(items@)),
{
    let ghost all = views(items@);
    let mut r = String::new();
    let mut none_yet = true;
    let mut i: usize = 0;
    while i < items.len()
        invariant
            i <= items@.len(),
            all == views(items@),
            r@ == joined_strings(all.take(i as int)),
            none_yet == (strings_in(all.take(i as int)) == 0),
        decreases items@.len() - i,
    {
        assert(all.take(i + 1).drop_last() =~= all.take(i as int));
        assert(all.take(i + 1).last() == items@[i as int]@);
        match items[i].as_str() {
            Some(s) => {
                if none_yet {
                    r = s.clone();
                } else {
                    r.append(" ");
                    r.append(s.as_str());
                }
                none_yet = false;
            },
            None => {},
        }
        i += 1;
    }
    assert(all.take(items@.len() as int) =~= all);
    r
}

/// The scopes to ask for: those of the challenge, or else those that the resource supports.
pub open spec fn scopes_to_ask(params: Seq<(Seq<char>, Seq<char>)>, metadata: Option<JsonView>) -> Option<Seq<char>> {
    match param_value(params, "scope"@) {
        Some(s) => Some(s),
        None => match metadata {
            Some(m) => match member_items(m, "scopes_supported"@) {
                Some(items) => Some(joined_strings(items)),
                None => None,
            },
            None => None,
        },
    }
}

fn choose_scopes(params: &Vec<(String, String)>, metadata: &Option<Json>) -> (r: Option<String>)
    ensures
        opt_text(r) == scopes_to_ask(pair_texts(params@), opt_view(*metadata)),
{
    match get_www_auth_param(params, "scope") {
        Some(s) => Some(s),
        None => match metadata {
            Some(m) => match m.get_items("scopes_supported") {
                Some(items) => Some(join_strings(items)),
                None => None,
            },
            None => None,
        },
    }
}

// -- Requests.

/// The document that registers this client.
pub open spec fn registration_document(base_url: Seq<char>) -> JsonView {
    JsonView::Object(
        seq![
            ("client_name"@, JsonView::Text("MCP Web Client"@)),
            ("client_uri"@, JsonView::Text(client_origin(base_url))),
            ("grant_types"@, JsonView::Array(seq![JsonView::Text("authorization_code"@)])),
            ("redirect_uris"@, JsonView::Array(seq![JsonView::Text(callback_url(base_url))])),
            ("response_types"@, JsonView::Array(seq![JsonView::Text("code"@)])),
            ("token_endpoint_auth_method"@, JsonView::Text("none"@)),
        ],
    )
}

/// An array with one string.
fn one_string(s: &str) -> (j: Json)
    ensures
        j@ == JsonView::Array(seq![JsonView::Text(s@)]),
{
    let mut items: Vec<Json> = Vec::new();
    items.push(text_json(s));
    let j = Json::Array(items);
    assert(j@->Array_0 =~= seq![JsonView::Text(s@)]);
    j
}

/// Builds the document that registers this client.
pub fn registration_body(base_url: &str) -> (j: Json)
    ensures
        j@ == registration_document(base_url@),
{
    let mut members: Vec<(String, Json)> = Vec::new();
    members.push(("client_name".to_owned(), text_json("MCP Web Client")));
    members.push(("client_uri".to_owned(), text_json(local_origin(base_url).as_str())));
    members.push(("grant_types".to_owned(), one_string("authorization_code")));
    members.push(("redirect_uris".to_owned(), one_string(oauth_redirect(base_url).as_str())));
    members.push(("response_types".to_owned(), one_string("code")));
    members.push(("token_endpoint_auth_method".to_owned(), text_json("none")));
    let j = Json::Object(members);
    assert(j@->Object_0 =~= member_views(members@));
    assert(j@->Object_0 =~= registration_document(base_url@)->Object_0);
    j
}

/// The parameters of an authorization request.
pub open spec fn authorization_params(
    client_id: Seq<char>,
    redirect_uri: Seq<char>,
    state: Seq<char>,
    challenge: Seq<char>,
    resource: Seq<char>,
    scope: Option<Seq<char>>,
) -> Seq<(Seq<char>, Seq<char>)> {
    let base = seq![
        ("response_type"@, "code"@),
        ("client_id"@, client_id),
        ("redirect_uri"@, redirect_uri),
        ("state"@, state),
        ("code_challenge"@, challenge),
        ("code_challenge_method"@, "S256"@),
        ("resource"@, resource),
    ];
    match scope {
        Some(s) => base.push(("scope"@, s)),
        None => base,
    }
}

/// The URL to which the user is sent.
pub open spec fn authorization_url(endpoint: Seq<char>, params: Seq<(Seq<char>, Seq<char>)>) -> Seq<char> {
    endpoint + "?"@ + form_encoded(params)
}

// -- The flow.

impl<C> McpClientState<C> {
    /// The client identifier that the flow goes on with.
    pub open spec fn flow_client_id(self) -> Seq<char> {
        match self.client_id {
            Some(id) => id@,
            None => "default-client"@,
        }
    }

    /// What the authorization request leaves behind and where it sends the user, once the client
    /// is registered or has given up on it: `verifier` and `state` are the fresh values.
    pub open spec fn sends_user(
        self,
        after: McpClientState<C>,
        params: Seq<(Seq<char>, Seq<char>)>,
        next: FlowNext,
    ) -> bool {
        // What was there before is kept, but for what this step sets.
        &&& after == (McpClientState {
            client_id: after.client_id,
            client_secret: after.client_secret,
            pkce_verifier: after.pkce_verifier,
            oauth_state: after.oauth_state,
            scopes: after.scopes,
            ..self
        })
        // Without a registration, the default client.
        &&& match self.client_id {
            Some(_) => after.client_id == self.client_id && after.client_secret == self.client_secret,
            None => opt_text(after.client_id) == Some("default-client"@) && opt_text(after.client_secret) == Some(
                "default-client-secret"@,
            ),
        }
        &&& match self.endpoint("authorization_endpoint"@) {
            None => next.fails_with("No authorization_endpoint in server metadata"@) && after.pkce_verifier
                == self.pkce_verifier && after.oauth_state == self.oauth_state && after.scopes == self.scopes,
            Some(endpoint) => {
                &&& after.pkce_verifier is Some
                &&& after.oauth_state is Some
                &&& opt_text(after.scopes) == scopes_to_ask(params, opt_view(self.resource_metadata))
                &&& next matches FlowNext::Done(Ok(url))
                &&& url@ == authorization_url(
                    endpoint,
                    authorization_params(
                        self.flow_client_id(),
                        callback_url(self.base_url@),
                        after.oauth_state->0@,
                        s256_challenge(after.pkce_verifier->0@),
                        resource_identifier(self.mcp_url@),
                        opt_text(after.scopes),
                    ),
                )
            },
        }
    }

    /// What the authorization request leaves behind and where it sends the user, with values that were
    /// drawn for it: a verifier of thirty-two bytes and a state value of sixteen.
    pub open spec fn draws_and_sends(
        self,
        after: McpClientState<C>,
        params: Seq<(Seq<char>, Seq<char>)>,
        next: FlowNext,
    ) -> bool {
        &&& self.sends_user(after, params, next)
        &&& self.endpoint("authorization_endpoint"@) is Some ==> is_drawn(after.pkce_verifier->0@, 32) && is_drawn(
            after.oauth_state->0@,
            16,
        )
    }

    /// An endpoint that the authorization server's metadata names.
    pub open spec fn endpoint(self, name: Seq<char>) -> Option<Seq<char>> {
        match self.auth_server_metadata {
            Some(m) => member_string(m@, name),
            None => None,
        }
    }

    /// What follows when the resource metadata is found.
    pub open spec fn finds_resource(
        self,
        after: McpClientState<C>,
        params: Vec<(String, String)>,
        metadata: JsonView,
        next: FlowNext,
    ) -> bool {
        &&& after == (McpClientState { resource_metadata: after.resource_metadata, ..self })
        &&& opt_view(after.resource_metadata) == Some(metadata)
        &&& match first_issuer(metadata) {
            None => next.fails_with("No authorization_servers in resource metadata"@),
            Some(issuer) => match parsed_url(issuer) {
                Err(e) => next.fails_with(e),
                Ok(url) => {
                    &&& next matches FlowNext::Ask(FlowPhase::Server { params: p, candidates: c, asked: n }, _)
                    &&& p == params
                    &&& texts(c@) == server_places(issuer, url)
                    &&& n == 0
                    &&& next.gets(server_places(issuer, url)[0])
                },
            },
        }
    }

    /// What follows when the authorization server's metadata is found.
    pub open spec fn finds_server(
        self,
        after: McpClientState<C>,
        params: Vec<(String, String)>,
        metadata: Json,
        next: FlowNext,
    ) -> bool {
        let known = McpClientState { auth_server_metadata: Some(metadata), ..self };
        match member_string(metadata@, "registration_endpoint"@) {
            Some(url) if self.client_id is None => {
                &&& after == known
                &&& next matches FlowNext::Ask(FlowPhase::Registration { params: p }, FlowAction::Register {
                    url: u,
                    body,
                })
                &&& p == params
                &&& u@ == url
                &&& body@ == registration_document(self.base_url@)
            },
            _ => known.draws_and_sends(after, pair_texts(params@), next),
        }
    }

    /// What follows when the registration is answered: the identifiers of a successful answer are
    /// kept, and any other answer leaves the client as it was.
    pub open spec fn registers(
        self,
        after: McpClientState<C>,
        params: Vec<(String, String)>,
        fetched: Fetched,
        next: FlowNext,
    ) -> bool {
        match fetched.usable() {
            Some(json) => exists|id: Option<String>, secret: Option<String>|
                {
                    &&& opt_text(id) == member_string(json, "client_id"@)
                    &&& opt_text(secret) == member_string(json, "client_secret"@)
                    &&& #[trigger] (McpClientState { client_id: id, client_secret: secret, ..self }).draws_and_sends(
                        after,
                        pair_texts(params@),
                        next,
                    )
                },
            None => self.draws_and_sends(after, pair_texts(params@), next),
        }
    }

    /// How the flow begins with a challenge: by asking the first place for the resource metadata.
    pub open spec fn begins_flow(self, www_auth: Seq<char>, next: FlowNext) -> bool {
        &&& next.wf()
        &&& match parsed_url(self.mcp_url@) {
            Err(e) => next.fails_with(e),
            Ok(url) => {
                let places = resource_places(challenge_params(www_auth), url);
                &&& next matches FlowNext::Ask(FlowPhase::Resource { params: p, candidates: c, asked: n }, _)
                &&& pair_texts(p@) == challenge_params(www_auth)
                &&& texts(c@) == places
                &&& n == 0
                &&& next.gets(places[0])
            },
        }
    }

    /// How the flow goes on with what came back.
    pub open spec fn goes_on(
        self,
        after: McpClientState<C>,
        phase: FlowPhase,
        fetched: Fetched,
        next: FlowNext,
    ) -> bool {
        &&& next.wf()
        &&& match phase {
            FlowPhase::Resource { params, candidates, asked } => match fetched.usable() {
                Some(metadata) => self.finds_resource(after, params, metadata, next),
                None => after == self && if asked + 1 < candidates@.len() {
                    next matches FlowNext::Ask(FlowPhase::Resource { params: p, candidates: c, asked: n }, _) && p
                        == params && c == candidates && n == asked + 1 && next.gets(candidates@[asked + 1]@)
                } else {
                    next.fails_with("Could not discover Protected Resource Metadata"@)
                },
            },
            FlowPhase::Server { params, candidates, asked } => match fetched.usable() {
                Some(metadata) => exists|json: Json|
                    json@ == metadata && #[trigger] self.finds_server(after, params, json, next),
                None => after == self && if asked + 1 < candidates@.len() {
                    next matches FlowNext::Ask(FlowPhase::Server { params: p, candidates: c, asked: n }, _) && p
                        == params && c == candidates && n == asked + 1 && next.gets(candidates@[asked + 1]@)
                } else {
                    next.fails_with("Could not discover Authorization Server Metadata"@)
                },
            },
            FlowPhase::Registration { params } => self.registers(after, params, fetched, next),
        }
    }

    /// Starts the flow from a challenge.
    pub fn start_oauth_flow(&self, www_auth: &str) -> (next: FlowNext)
        ensures
            self.begins_flow(www_auth@, next),
    {
        let params = parse_www_authenticate(www_auth);
        match parse_url(self.mcp_url.as_str()) {
            Err(e) => FlowNext::Done(Err(e)),
            Ok(url) => {
                let candidates = resource_candidates(&params, &url);
                let first = candidates[0].clone();
                assert(texts(candidates@)[0] == first@);
                FlowNext::Ask(FlowPhase::Resource { params, candidates, asked: 0 }, FlowAction::Get(first))
            },
        }
    }

    /// Goes on with what came back.
    pub fn flow_step(&mut self, phase: FlowPhase, fetched: Fetched) -> (next: FlowNext)
        requires
            phase.wf(),
        ensures
            old(self).goes_on(*final(self), phase, fetched, next),
    {
        match phase {
            FlowPhase::Resource { params, candidates, asked } => match fetched.usable_json() {
                Some(metadata) => self.resource_found(params, metadata),
                None => if asked < candidates.len() - 1 {
                    let url = candidates[asked + 1].clone();
                    FlowNext::Ask(FlowPhase::Resource { params, candidates, asked: asked + 1 }, FlowAction::Get(url))
                } else {
                    FlowNext::Done(Err("Could not discover Protected Resource Metadata".to_owned()))
                },
            },
            FlowPhase::Server { params, candidates, asked } => match fetched.usable_json() {
                Some(metadata) => self.server_found(params, metadata),
                None => if asked < candidates.len() - 1 {
                    let url = candidates[asked + 1].clone();
                    FlowNext::Ask(FlowPhase::Server { params, candidates, asked: asked + 1 }, FlowAction::Get(url))
                } else {
                    FlowNext::Done(Err("Could not discover Authorization Server Metadata".to_owned()))
                },
            },
            FlowPhase::Registration { params } => {
                match fetched.usable_json() {
                    Some(json) => {
                        self.client_id = json.get_str("client_id");
                        self.client_secret = json.get_str("client_secret");
                    },
                    None => {},
                }
                self.send_user(&params)
            },
        }
    }

    /// Keeps the resource metadata and turns to the authorization server that it names.
    pub fn resource_found(&mut self, params: Vec<(String, String)>, metadata: Json) -> (next: FlowNext)
        ensures
            next.wf(),
            old(self).finds_resource(*final(self), params, metadata@, next),
    {
        let issuer = issuer_of(&metadata);
        self.resource_metadata = Some(metadata);
        match issuer {
            None => FlowNext::Done(Err("No authorization_servers in resource metadata".to_owned())),
            Some(issuer) => match parse_url(issuer.as_str()) {
                Err(e) => FlowNext::Done(Err(e)),
                Ok(url) => {
                    let candidates = server_candidates(issuer.as_str(), &url);
                    let first = candidates[0].clone();
                    assert(texts(candidates@)[0] == first@);
                    FlowNext::Ask(FlowPhase::Server { params, candidates, asked: 0 }, FlowAction::Get(first))
                },
            },
        }
    }

    /// Keeps the authorization server's metadata, and registers or goes on.
    pub fn server_found(&mut self, params: Vec<(String, String)>, metadata: Json) -> (next: FlowNext)
        ensures
            next.wf(),
            old(self).finds_server(*final(self), params, metadata, next),
    {
        let registration = metadata.get_str("registration_endpoint");
        self.auth_server_metadata = Some(metadata);
        if self.client_id.is_none() {
            match registration {
                Some(url) => {
                    let body = registration_body(self.base_url.as_str());
                    return FlowNext::Ask(FlowPhase::Registration { params }, FlowAction::Register { url, body });
                },
                None => {},
            }
        }
        self.send_user(&params)
    }

    /// Draws the fresh values of an authorization request and sends the user off.
    pub fn send_user(&mut self, params: &Vec<(String, String)>) -> (next: FlowNext)
        ensures
            next.wf(),
            old(self).draws_and_sends(*final(self), pair_texts(params@), next),
    {
        let (verifier, challenge) = pkce_pair();
        let state = random_state();
        self.send_user_with(params, verifier, challenge, state)
    }

    /// Sends the user to the authorization server with the given verifier, its challenge and the
    /// given state value.
    pub fn send_user_with(
        &mut self,
        params: &Vec<(String, String)>,
        verifier: String,
        challenge: String,
        state: String,
    ) -> (next: FlowNext)
        requires
            challenge@ == s256_challenge(verifier@),
        ensures
            next.wf(),
            old(self).sends_user(*final(self), pair_texts(params@), next),
            old(self).endpoint("authorization_endpoint"@) is Some ==> final(self).pkce_verifier == Some(verifier)
                && final(self).oauth_state == Some(state),
    {
        if self.client_id.is_none() {
            self.client_id = Some("default-client".to_owned());
            self.client_secret = Some("default-client-secret".to_owned());
        }
        let endpoint = match &self.auth_server_metadata {
            Some(m) => m.get_str("authorization_endpoint"),
            None => None,
        };
        match endpoint {
            None => FlowNext::Done(Err("No authorization_endpoint in server metadata".to_owned())),
            Some(endpoint) => {
                let scope = choose_scopes(params, &self.resource_metadata);
                let callback = oauth_redirect(self.base_url.as_str());
                let resource = canonical_resource(self.mcp_url.as_str());
                let mut query: Vec<(String, String)> = Vec::new();
                query.push(pair("response_type", "code"));
                match &self.client_id {
                    Some(id) => query.push(pair("client_id", id.as_str())),
                    None => {},
                }
                query.push(pair("redirect_uri", callback.as_str()));
                query.push(pair("state", state.as_str()));
                query.push(pair("code_challenge", challenge.as_str()));
                query.push(pair("code_challenge_method", "S256"));
                query.push(pair("resource", resource.as_str()));
                match &scope {
                    Some(s) => query.push(pair("scope", s.as_str())),
                    None => {},
                }
                assert(pair_texts(query@) =~= authorization_params(
                    old(self).flow_client_id(),
                    callback@,
                    state@,
                    challenge@,
                    resource@,
                    opt_text(scope),
                ));
                self.pkce_verifier = Some(verifier);
                self.oauth_state = Some(state);
                self.scopes = scope;
                let mut url = endpoint;
                url.append("?");
                url.append(form_urlencoded(&query).as_str());
                FlowNext::Done(Ok(url))
            },
        }
    }
}

/// The flow comes to its end whatever is answered: every answer leaves fewer kinds of requests, or
/// fewer places to ask.
pub proof fn every_answer_brings_the_flow_nearer_its_end<C>(
    before: McpClientState<C>,
    after: McpClientState<C>,
    phase: FlowPhase,
    fetched: Fetched,
    next: FlowNext,
)
    requires
        phase.wf(),
        before.goes_on(after, phase, fetched, next),
    ensures
        next matches FlowNext::Ask(p, _) ==> {
            &&& p.left() >= 0
            &&& p.stage() < phase.stage() || (p.stage() == phase.stage() && p.left() < phase.left())
        },
{
    match phase {
        FlowPhase::Resource { candidates, asked, .. } => {
            assert(asked < candidates@.len());
        },
        FlowPhase::Server { params, candidates, asked } => {
            assert(asked < candidates@.len());
            match fetched.usable() {
                Some(metadata) => {
                    let json = choose|json: Json|
                        json@ == metadata && #[trigger] before.finds_server(after, params, json, next);
                    assert(before.finds_server(after, params, json, next));
                },
                None => {},
            }
        },
        FlowPhase::Registration { params } => {
            assert(before.registers(after, params, fetched, next));
        },
    }
}

// -- What holds of the flow.

/// The texts one behind the other, with a space between two.
pub open spec fn spaced(words: Seq<Seq<char>>) -> Seq<char>
    decreases words.len(),
{
    if words.len() == 0 {
        Seq::empty()
    } else if words.len() == 1 {
        words[0]
    } else {
        words[0] + " "@ + spaced(words.skip(1))
    }
}

proof fn lemma_spaced_push(words: Seq<Seq<char>>, word: Seq<char>)
    requires
        words.len() > 0,
    ensures
        spaced(words.push(word)) == spaced(words) + " "@ + word,
    decreases words.len(),
{
    let longer = words.push(word);
    if words.len() == 1 {
        assert(longer.skip(1) =~= seq![word]);
        assert(spaced(seq![word]) == word);
    } else {
        lemma_spaced_push(words.skip(1), word);
        assert(longer.skip(1) =~= words.skip(1).push(word));
        assert(words[0] + " "@ + (spaced(words.skip(1)) + " "@ + word) =~= words[0] + " "@ + spaced(words.skip(1))
            + " "@ + word);
    }
}

/// The strings among the items of a list are the given ones, in order.
pub open spec fn has_strings(items: Seq<JsonView>, words: Seq<Seq<char>>) -> bool {
    items.filter(|item: JsonView| item is Text) == Seq::new(words.len(), |i: int| JsonView::Text(words[i]))
}

/// The strings among the items of a list, in order, are what is joined; anything else in it is passed
/// over.
pub proof fn strings_are_joined_by_spaces(items: Seq<JsonView>, words: Seq<Seq<char>>)
    requires
        has_strings(items, words),
    ensures
        joined_strings(items) == spaced(words),
        strings_in(items) == words.len(),
    decreases items.len(),
{
    reveal(Seq::filter);
    let found = items.filter(|item: JsonView| item is Text);
    assert(found.len() == words.len());
    if items.len() > 0 {
        let head = items.drop_last();
        let before = head.filter(|item: JsonView| item is Text);
        if items.last() is Text {
            assert(found =~= before.push(items.last()));
            let fewer = words.drop_last();
            assert(before =~= Seq::new(fewer.len(), |i: int| JsonView::Text(fewer[i]))) by {
                assert forall|i: int| 0 <= i < before.len() implies before[i] == JsonView::Text(fewer[i]) by {
                    assert(found[i] == before[i]);
                }
            }
            strings_are_joined_by_spaces(head, fewer);
            assert(found[words.len() - 1] == items.last());
            assert(items.last() == JsonView::Text(words.last()));
            assert(words =~= fewer.push(words.last()));
            if fewer.len() > 0 {
                lemma_spaced_push(fewer, words.last());
            }
        } else {
            assert(found =~= before);
            strings_are_joined_by_spaces(head, words);
        }
    } else {
        assert(words =~= Seq::empty());
    }
}

/// The user is sent to the authorization endpoint that the server's metadata names, with a request for
/// a code that names the client, the callback, the resource, the state value that is kept and the
/// S256 challenge of the verifier that is kept. Gives the pairs of the request.
pub proof fn the_authorization_request_carries_what_is_kept<C>(
    before: McpClientState<C>,
    after: McpClientState<C>,
    challenge: Seq<(Seq<char>, Seq<char>)>,
    next: FlowNext,
) -> (pairs: Seq<(Seq<char>, Seq<char>)>)
    requires
        before.sends_user(after, challenge, next),
        next is Done && next->Done_0 is Ok,
    ensures
        before.auth_server_metadata matches Some(m) && member_string(m@, "authorization_endpoint"@) matches Some(
            endpoint,
        ) && next->Done_0->Ok_0@ == endpoint + "?"@ + form_encoded(pairs),
        holds_only(pairs, "response_type"@, "code"@),
        after.client_id matches Some(id) && holds_only(pairs, "client_id"@, id@),
        holds_only(pairs, "redirect_uri"@, trimmed_end(after.base_url@, '/') + "/mcpclient/oauth/callback"@),
        after.oauth_state matches Some(s) && holds_only(pairs, "state"@, s@),
        after.pkce_verifier matches Some(v) && holds_only(
            pairs,
            "code_challenge"@,
            base64url(sha256(encode_utf8(v@))),
        ),
        holds_only(pairs, "code_challenge_method"@, "S256"@),
        holds_only(pairs, "resource"@, resource_identifier(after.mcp_url@)),
        match after.scopes {
            Some(s) => holds_only(pairs, "scope"@, s@),
            None => holds_none(pairs, "scope"@),
        },
{
    reveal_strlit("response_type");
    reveal_strlit("client_id");
    reveal_strlit("redirect_uri");
    reveal_strlit("state");
    reveal_strlit("code_challenge");
    reveal_strlit("code_challenge_method");
    reveal_strlit("resource");
    reveal_strlit("scope");
    let pairs = authorization_params(
        before.flow_client_id(),
        callback_url(before.base_url@),
        after.oauth_state->0@,
        s256_challenge(after.pkce_verifier->0@),
        resource_identifier(before.mcp_url@),
        opt_text(after.scopes),
    );
    assert("state"@[1] != "scope"@[1]);
    assert(pairs[0].0 == "response_type"@ && pairs[1].0 == "client_id"@ && pairs[2].0 == "redirect_uri"@
        && pairs[3].0 == "state"@ && pairs[4].0 == "code_challenge"@ && pairs[5].0 == "code_challenge_method"@
        && pairs[6].0 == "resource"@);
    the_callback_lies_below_the_base(before.base_url@);
    lemma_holds_only(pairs, 0);
    lemma_holds_only(pairs, 1);
    lemma_holds_only(pairs, 2);
    lemma_holds_only(pairs, 3);
    lemma_holds_only(pairs, 4);
    lemma_holds_only(pairs, 5);
    lemma_holds_only(pairs, 6);
    if after.scopes is Some {
        lemma_holds_only(pairs, 7);
    }
    pairs
}

/// Where the challenge names a scope, exactly that scope is asked for and kept, whatever the resource
/// says about itself. Where it names none, the scopes that the resource supports are asked for, joined
/// by spaces; and where the resource lists none either, no scope is asked for.
pub proof fn the_challenge_decides_the_scope<C>(
    before: McpClientState<C>,
    after: McpClientState<C>,
    header: Seq<char>,
    next: FlowNext,
) -> (pairs: Seq<(Seq<char>, Seq<char>)>)
    requires
        before.sends_user(after, challenge_params(header), next),
        next is Done && next->Done_0 is Ok,
    ensures
        before.auth_server_metadata matches Some(m) && member_string(m@, "authorization_endpoint"@) matches Some(
            endpoint,
        ) && next->Done_0->Ok_0@ == endpoint + "?"@ + form_encoded(pairs),
        param_value(challenge_params(header), "scope"@) matches Some(s) ==> {
            &&& after.scopes matches Some(kept) && kept@ == s
            &&& holds_only(pairs, "scope"@, s)
        },
        param_value(challenge_params(header), "scope"@) is None ==> {
            let listed = match before.resource_metadata {
                Some(m) => match member(m@, "scopes_supported"@) {
                    Some(JsonView::Array(items)) => Some(items),
                    _ => None,
                },
                None => None,
            };
            match listed {
                Some(items) => forall|words: Seq<Seq<char>>| #[trigger]
                    has_strings(items, words) ==> opt_text(after.scopes) == Some(spaced(words)) && holds_only(
                        pairs,
                        "scope"@,
                        spaced(words),
                    ),
                None => after.scopes is None && holds_none(pairs, "scope"@),
            }
        },
{
    let pairs = the_authorization_request_carries_what_is_kept(before, after, challenge_params(header), next);
    if param_value(challenge_params(header), "scope"@) is None && before.resource_metadata is Some {
        match member(before.resource_metadata->0@, "scopes_supported"@) {
            Some(JsonView::Array(items)) => {
                assert forall|words: Seq<Seq<char>>| #[trigger] has_strings(items, words) implies opt_text(after.scopes)
                    == Some(spaced(words)) && holds_only(pairs, "scope"@, spaced(words)) by {
                    strings_are_joined_by_spaces(items, words);
                }
            },
            _ => {},
        }
    }
    pairs
}

/// The flow begins where the challenge says, if it says so; otherwise below the well-known prefix of the
/// server's origin, with the server's own path where it has one. The last place to be asked is always the
/// well-known one without a path. What the challenge said goes along.
pub proof fn the_challenge_says_where_to_look<C>(
    state: McpClientState<C>,
    header: Seq<char>,
    url: UrlView,
    next: FlowNext,
)
    requires
        state.begins_flow(header, next),
        parsed_url(state.mcp_url@) == Ok::<UrlView, Seq<char>>(url),
    ensures
        next matches FlowNext::Ask(FlowPhase::Resource { params, candidates, asked }, FlowAction::Get(place)) && {
            let told = param_value(challenge_params(header), "resource_metadata"@);
            let well_known = url.scheme + "://"@ + url.authority + "/.well-known/oauth-protected-resource"@;
            &&& pair_texts(params@) == challenge_params(header)
            &&& asked == 0
            &&& candidates@.len() > 0
            &&& place@ == candidates@[0]@
            &&& told matches Some(u) ==> place@ == u
            &&& told is None && (url.path == "/"@ || url.path.len() == 0) ==> place@ == well_known
            &&& told is None && url.path != "/"@ && url.path.len() > 0 ==> place@ == well_known + url.path
            &&& candidates@.last()@ == well_known
        },
{
    let places = resource_places(challenge_params(header), url);
    match next {
        FlowNext::Ask(FlowPhase::Resource { params, candidates, asked }, FlowAction::Get(place)) => {
            assert(texts(candidates@) == places);
            assert(texts(candidates@).len() == candidates@.len());
            assert(texts(candidates@)[0] == candidates@[0]@);
            assert(texts(candidates@)[candidates@.len() - 1] == candidates@.last()@);
            let well_known = url.scheme + "://"@ + url.authority + "/.well-known/oauth-protected-resource"@;
            assert(url.scheme + "://"@ + url.authority + ("/.well-known/oauth-protected-resource"@ + url.path)
                =~= well_known + url.path);
        },
        _ => {},
    }
}

/// Resource metadata leads to the first authorization server that it names: its metadata is looked for in
/// its OpenID configuration, and then in its OAuth metadata, at its origin.
pub proof fn the_first_authorization_server_is_asked<C>(
    before: McpClientState<C>,
    after: McpClientState<C>,
    params: Vec<(String, String)>,
    metadata: JsonView,
    items: Seq<JsonView>,
    issuer: Seq<char>,
    url: UrlView,
    next: FlowNext,
)
    requires
        before.finds_resource(after, params, metadata, next),
        member(metadata, "authorization_servers"@) == Some(JsonView::Array(items)),
        items.len() > 0 && items[0] == JsonView::Text(issuer),
        parsed_url(issuer) == Ok::<UrlView, Seq<char>>(url),
    ensures
        after.resource_metadata matches Some(kept) && kept@ == metadata,
        next matches FlowNext::Ask(FlowPhase::Server { params: p, candidates, asked }, FlowAction::Get(place)) && {
            let origin = url.scheme + "://"@ + url.authority;
            &&& p == params
            &&& asked == 0
            &&& candidates@.len() > 0
            &&& place@ == candidates@[0]@
            &&& url.path == "/"@ || url.path.len() == 0 ==> {
                &&& place@ == origin + "/.well-known/openid-configuration"@
                &&& candidates@.last()@ == origin + "/.well-known/oauth-authorization-server"@
            }
            &&& url.path != "/"@ && url.path.len() > 0 ==> {
                &&& place@ == trimmed_end(issuer, '/') + "/.well-known/openid-configuration"@
                &&& candidates@.last()@ == origin + "/.well-known/oauth-authorization-server"@ + url.path
            }
        },
{
    match next {
        FlowNext::Ask(FlowPhase::Server { params: p, candidates, asked }, FlowAction::Get(place)) => {
            assert(texts(candidates@) == server_places(issuer, url));
            assert(texts(candidates@).len() == candidates@.len());
            assert(texts(candidates@)[0] == candidates@[0]@);
            assert(texts(candidates@)[candidates@.len() - 1] == candidates@.last()@);
            let origin = url.scheme + "://"@ + url.authority;
            assert(origin + ("/.well-known/oauth-authorization-server"@ + url.path) =~= origin
                + "/.well-known/oauth-authorization-server"@ + url.path);
        },
        _ => {},
    }
}

/// An answer that is of no use leads to the next place, and to failure only behind the last one; nothing
/// is kept of it.
pub proof fn every_place_is_asked<C>(
    before: McpClientState<C>,
    after: McpClientState<C>,
    phase: FlowPhase,
    answer: Answer,
    next: FlowNext,
)
    requires
        before.goes_on(after, phase, Fetched::Answer(answer), next),
        answer.status < 200 || answer.status >= 300,
    ensures
        phase matches FlowPhase::Resource { params, candidates, asked } ==> {
            &&& after == before
            &&& asked + 1 < candidates@.len() ==> next is Ask && next->Ask_0 == (FlowPhase::Resource {
                params,
                candidates,
                asked: (asked + 1) as usize,
            }) && next->Ask_1 is Get && next->Ask_1->Get_0@ == candidates@[asked + 1]@
            &&& asked + 1 >= candidates@.len() ==> next is Done && next->Done_0 is Err && next->Done_0->Err_0@
                == "Could not discover Protected Resource Metadata"@
        },
        phase matches FlowPhase::Server { params, candidates, asked } ==> {
            &&& after == before
            &&& asked + 1 < candidates@.len() ==> next is Ask && next->Ask_0 == (FlowPhase::Server {
                params,
                candidates,
                asked: (asked + 1) as usize,
            }) && next->Ask_1 is Get && next->Ask_1->Get_0@ == candidates@[asked + 1]@
            &&& asked + 1 >= candidates@.len() ==> next is Done && next->Done_0 is Err && next->Done_0->Err_0@
                == "Could not discover Authorization Server Metadata"@
        },
{
    documents_of_success_are_usable(answer);
}

/// A server that takes registrations is asked for one exactly where no client is known yet. The
/// registration names the callback, asks for the code flow and for no secret.
pub proof fn an_unknown_client_registers<C>(
    before: McpClientState<C>,
    after: McpClientState<C>,
    params: Vec<(String, String)>,
    metadata: Json,
    next: FlowNext,
)
    requires
        before.finds_server(after, params, metadata, next),
    ensures
        after.auth_server_metadata == Some(metadata),
        (next matches FlowNext::Ask(_, FlowAction::Register { .. })) <==> before.client_id is None && (member(
            metadata@,
            "registration_endpoint"@,
        ) matches Some(JsonView::Text(_))),
        next matches FlowNext::Ask(_, FlowAction::Register { url, body }) ==> {
            let callback = trimmed_end(before.base_url@, '/') + "/mcpclient/oauth/callback"@;
            &&& member(metadata@, "registration_endpoint"@) == Some(JsonView::Text(url@))
            &&& member(body@, "redirect_uris"@) == Some(JsonView::Array(seq![JsonView::Text(callback)]))
            &&& member(body@, "grant_types"@) == Some(JsonView::Array(seq![JsonView::Text("authorization_code"@)]))
            &&& member(body@, "response_types"@) == Some(JsonView::Array(seq![JsonView::Text("code"@)]))
            &&& member(body@, "token_endpoint_auth_method"@) == Some(JsonView::Text("none"@))
        },
{
    the_callback_lies_below_the_base(before.base_url@);
    lemma_registration_members(before.base_url@);
}

proof fn lemma_registration_members(base_url: Seq<char>)
    ensures
        ({
            let document = registration_document(base_url);
            &&& member(document, "redirect_uris"@) == Some(JsonView::Array(seq![JsonView::Text(callback_url(base_url))]))
            &&& member(document, "grant_types"@) == Some(JsonView::Array(seq![JsonView::Text("authorization_code"@)]))
            &&& member(document, "response_types"@) == Some(JsonView::Array(seq![JsonView::Text("code"@)]))
            &&& member(document, "token_endpoint_auth_method"@) == Some(JsonView::Text("none"@))
        }),
{
    reveal_strlit("client_name");
    reveal_strlit("client_uri");
    reveal_strlit("grant_types");
    reveal_strlit("redirect_uris");
    reveal_strlit("response_types");
    reveal_strlit("token_endpoint_auth_method");
    let members = registration_document(base_url)->Object_0;
    assert("client_name"@[0] != "grant_types"@[0]);
    assert("client_name"@.len() == 11 && "client_uri"@.len() == 10 && "grant_types"@.len() == 11
        && "redirect_uris"@.len() == 13 && "response_types"@.len() == 14 && "token_endpoint_auth_method"@.len() == 26);
    assert(members[0].0 == "client_name"@ && members[1].0 == "client_uri"@ && members[2].0 == "grant_types"@
        && members[3].0 == "redirect_uris"@ && members[4].0 == "response_types"@ && members[5].0
        == "token_endpoint_auth_method"@);
    the_first_member_counts(members.take(2), "grant_types"@, members[2].1, members.skip(3));
    assert(members =~= members.take(2) + seq![members[2]] + members.skip(3));
    the_first_member_counts(members.take(3), "redirect_uris"@, members[3].1, members.skip(4));
    assert(members =~= members.take(3) + seq![members[3]] + members.skip(4));
    the_first_member_counts(members.take(4), "response_types"@, members[4].1, members.skip(5));
    assert(members =~= members.take(4) + seq![members[4]] + members.skip(5));
    the_first_member_counts(members.take(5), "token_endpoint_auth_method"@, members[5].1, members.skip(6));
    assert(members =~= members.take(5) + seq![members[5]] + members.skip(6));
}

/// A client that a registration names is the one that is kept and that asks for the code, with the secret
/// that came with it; a registration that is refused leaves the default client, where there was none.
pub proof fn the_registered_client_is_kept<C>(
    before: McpClientState<C>,
    after: McpClientState<C>,
    params: Vec<(String, String)>,
    answer: Answer,
    next: FlowNext,
)
    requires
        before.registers(after, params, Fetched::Answer(answer), next),
        answer.body matches Ok(bytes) && parsed(bytes@) is Ok,
    ensures
        200 <= answer.status < 300 ==> {
            let json = parsed(answer.body->Ok_0@)->Ok_0;
            &&& member(json, "client_id"@) matches Some(JsonView::Text(id)) ==> {
                &&& opt_text(after.client_id) == Some(id)
                &&& opt_text(after.client_secret) == (match member(json, "client_secret"@) {
                    Some(JsonView::Text(secret)) => Some(secret),
                    _ => None,
                })
            }
            &&& !(member(json, "client_id"@) matches Some(JsonView::Text(_))) ==> opt_text(after.client_id) == Some(
                "default-client"@,
            ) && opt_text(after.client_secret) == Some("default-client-secret"@)
        },
        answer.status < 200 || answer.status >= 300 ==> {
            &&& before.client_id is Some ==> after.client_id == before.client_id && after.client_secret
                == before.client_secret
            &&& before.client_id is None ==> opt_text(after.client_id) == Some("default-client"@) && opt_text(
                after.client_secret,
            ) == Some("default-client-secret"@)
        },
{
    documents_of_success_are_usable(answer);
    if 200 <= answer.status < 300 {
        let json = parsed(answer.body->Ok_0@)->Ok_0;
        assert(Fetched::Answer(answer).usable() == Some(json));
        let (id, secret) = choose|id: Option<String>, secret: Option<String>|
            {
                &&& opt_text(id) == member_string(json, "client_id"@)
                &&& opt_text(secret) == member_string(json, "client_secret"@)
                &&& #[trigger] (McpClientState { client_id: id, client_secret: secret, ..before }).draws_and_sends(
                    after,
                    pair_texts(params@),
                    next,
                )
            };
        let known = McpClientState { client_id: id, client_secret: secret, ..before };
        assert(known.draws_and_sends(after, pair_texts(params@), next));
    } else {
        assert(Fetched::Answer(answer).usable() is None);
    }
}

} // verus!
