//! What every login through an OAuth provider has in common: the authorization request, the token
//! request, and what the answers say.
use vstd::prelude::*;
use vstd::string::*;

use crate::encoding::{holds_none, holds_only, lemma_holds_only, pair, pair_texts, query_value, urlencod};
use crate::exchange::{Answer, Fetched};
use crate::json::{member, member_string, parsed, pretty, string_of, Json, JsonView};
use crate::text::{contains_part, joined, lemma_contains_between, opt_text, replace_char, replaced};

verus! {

/// The credentials of this site with a provider.
#[derive(Debug)]
pub struct ProviderConfig {
    pub client_id: String,
    pub client_secret: String,
}

impl ProviderConfig {
    /// A copy of the credentials.
    pub fn copy(&self) -> (c: ProviderConfig)
        ensures
            c == *self,
    {
        ProviderConfig { client_id: self.client_id.clone(), client_secret: self.client_secret.clone() }
    }
}

/// Credentials, where both halves are there.
pub open spec fn credentials(id: Option<String>, secret: Option<String>) -> Option<ProviderConfig> {
    match (id, secret) {
        (Some(client_id), Some(client_secret)) => Some(ProviderConfig { client_id, client_secret }),
        _ => None,
    }
}

/// Credentials, where both halves are there.
pub fn take_credentials(id: Option<String>, secret: Option<String>) -> (c: Option<ProviderConfig>)
    ensures
        c == credentials(id, secret),
{
    match (id, secret) {
        (Some(client_id), Some(client_secret)) => Some(ProviderConfig { client_id, client_secret }),
        _ => None,
    }
}

/// The query of a provider's callback.
#[derive(Debug)]
pub struct CallbackQuery {
    pub code: Option<String>,
    pub state: Option<String>,
    pub error: Option<String>,
}

/// A provider on the login page.
#[derive(Debug)]
pub struct ProviderInfo {
    pub slug: String,
    pub name: String,
}

/// What providers on the login page are called.
pub open spec fn info_views(infos: Seq<ProviderInfo>) -> Seq<(Seq<char>, Seq<char>)> {
    Seq::new(infos.len(), |i: int| (infos[i].slug@, infos[i].name@))
}

/// What the page behind a login shows.
#[derive(Debug)]
pub struct LoginResult {
    pub success: bool,
    pub provider_name: String,
    pub user_name: String,
    pub user_email: String,
    pub avatar_url: String,
    pub raw_json: String,
    pub error_message: String,
    pub session_id: String,
    /// A command that asks for the user with the token.
    pub curl_userinfo: String,
    /// A command that asks the provider about the token.
    pub curl_introspect: String,
}

impl LoginResult {
    /// A login that failed, with that message.
    pub open spec fn fails(self, message: Seq<char>, provider_name: Seq<char>) -> bool {
        &&& !self.success
        &&& self.provider_name@ == provider_name
        &&& self.user_name@.len() == 0
        &&& self.user_email@.len() == 0
        &&& self.avatar_url@.len() == 0
        &&& self.raw_json@.len() == 0
        &&& self.error_message@ == message
        &&& self.session_id@.len() == 0
        &&& self.curl_userinfo@.len() == 0
        &&& self.curl_introspect@.len() == 0
    }
}

/// The page of a login that failed.
pub fn render_error(message: &str, provider_name: &str) -> (r: LoginResult)
    ensures
        r.fails(message@, provider_name@),
{
    LoginResult {
        success: false,
        provider_name: provider_name.to_owned(),
        user_name: String::new(),
        user_email: String::new(),
        avatar_url: String::new(),
        raw_json: String::new(),
        error_message: message.to_owned(),
        session_id: String::new(),
        curl_userinfo: String::new(),
        curl_introspect: String::new(),
    }
}

// -- Requests.

/// Where a provider sends the user back to.
pub open spec fn callback_address(base_url: Seq<char>, slug: Seq<char>) -> Seq<char> {
    base_url + "/login/"@ + slug + "/callback"@
}

/// Where a provider sends the user back to.
pub fn write_callback(base_url: &str, slug: &str) -> (r: String)
    ensures
        r@ == callback_address(base_url@, slug@),
{
    let mut r = joined(base_url, "/login/");
    r.append(slug);
    r.append("/callback");
    r
}

/// The authorization request.
pub open spec fn authorization_request(
    endpoint: Seq<char>,
    client_id: Seq<char>,
    redirect_uri: Seq<char>,
    scopes: Seq<char>,
    state: Seq<char>,
) -> Seq<char> {
    endpoint + "?client_id="@ + query_value(client_id) + "&redirect_uri="@ + query_value(redirect_uri) + "&scope="@
        + query_value(scopes) + "&state="@ + query_value(state) + "&response_type=code"@
}

/// Writes the authorization request.
pub fn write_authorization(endpoint: &str, client_id: &str, redirect_uri: &str, scopes: &str, state: &str) -> (r:
    String)
    ensures
        r@ == authorization_request(endpoint@, client_id@, redirect_uri@, scopes@, state@),
{
    let mut r = joined(endpoint, "?client_id=");
    r.append(urlencod(client_id).as_str());
    r.append("&redirect_uri=");
    r.append(urlencod(redirect_uri).as_str());
    r.append("&scope=");
    r.append(urlencod(scopes).as_str());
    r.append("&state=");
    r.append(urlencod(state).as_str());
    r.append("&response_type=code");
    r
}

/// The fields of the token request.
pub open spec fn code_fields(
    code: Seq<char>,
    config: ProviderConfig,
    redirect_uri: Seq<char>,
    verifier: Option<Seq<char>>,
) -> Seq<(Seq<char>, Seq<char>)> {
    seq![
        ("code"@, code),
        ("client_id"@, config.client_id@),
        ("client_secret"@, config.client_secret@),
        ("redirect_uri"@, redirect_uri),
        ("grant_type"@, "authorization_code"@),
    ] + (match verifier {
        Some(v) => seq![("code_verifier"@, v)],
        None => Seq::empty(),
    })
}

/// Writes the fields of the token request.
pub fn write_code_fields(code: &str, config: &ProviderConfig, redirect_uri: &str, verifier: &Option<String>) -> (r: Vec<
    (String, String),
>)
    ensures
        pair_texts(r@) == code_fields(code@, *config, redirect_uri@, opt_text(*verifier)),
{
    let mut r: Vec<(String, String)> = Vec::new();
    r.push(pair("code", code));
    r.push(pair("client_id", config.client_id.as_str()));
    r.push(pair("client_secret", config.client_secret.as_str()));
    r.push(pair("redirect_uri", redirect_uri));
    r.push(pair("grant_type", "authorization_code"));
    match verifier {
        Some(v) => {
            r.push(pair("code_verifier", v.as_str()));
        },
        None => {},
    }
    assert(pair_texts(r@) =~= code_fields(code@, *config, redirect_uri@, opt_text(*verifier)));
    r
}

// -- Answers.

/// What came of a request for a document, whatever its status.
pub enum AnswerView {
    Document(JsonView),
    Unreadable(Seq<char>),
    Unsent(Seq<char>),
}

/// What came of a request for a document.
pub open spec fn answer_of(fetched: Fetched) -> AnswerView {
    match fetched {
        Fetched::Answer(a) => match a.document() {
            Ok(json) => AnswerView::Document(json),
            Err(e) => AnswerView::Unreadable(e),
        },
        Fetched::Failed(e) => AnswerView::Unsent(e@),
    }
}

/// The token that a provider grants, or its reason for granting none.
pub open spec fn granted(json: JsonView) -> Result<Seq<char>, Seq<char>> {
    match member_string(json, "access_token"@) {
        Some(token) => Ok(token),
        None => {
            let said = match member(json, "error_description"@) {
                Some(d) => string_of(d),
                None => member_string(json, "error"@),
            };
            match said {
                Some(text) => Err(text),
                None => Err("no access_token in response"@),
            }
        },
    }
}

/// Reads the token, or the reason for there being none.
pub fn read_grant(json: &Json) -> (r: Result<String, String>)
    ensures
        match r {
            Ok(token) => granted(json@) == Ok::<Seq<char>, Seq<char>>(token@),
            Err(reason) => granted(json@) == Err::<Seq<char>, Seq<char>>(reason@),
        },
{
    match json.get_str("access_token") {
        Some(token) => {
            return Ok(token);
        },
        None => {},
    }
    let said = match json.get("error_description") {
        Some(d) => match d.as_str() {
            Some(text) => Some(text.clone()),
            None => None,
        },
        None => json.get_str("error"),
    };
    match said {
        Some(text) => Err(text),
        None => Err("no access_token in response".to_owned()),
    }
}

/// How a provider describes its users.
#[derive(Debug, Clone, Copy, PartialEq, Eq, Structural)]
pub enum UserShape {
    /// With a name, an address and a picture.
    Picture,
    /// With a name or at least a login, an address and an avatar.
    Avatar,
}

/// A string member, or the empty text.
pub open spec fn string_or_empty(json: JsonView, key: Seq<char>) -> Seq<char> {
    match member_string(json, key) {
        Some(text) => text,
        None => Seq::empty(),
    }
}

fn read_or_empty(json: &Json, key: &str) -> (r: String)
    ensures
        r@ == string_or_empty(json@, key@),
{
    match json.get_str(key) {
        Some(text) => text,
        None => {
            let none = String::new();
            assert(none@ =~= Seq::empty());
            none
        },
    }
}

/// What a user is called.
pub open spec fn user_name_in(shape: UserShape, json: JsonView) -> Seq<char> {
    match shape {
        UserShape::Picture => string_or_empty(json, "name"@),
        UserShape::Avatar => match member_string(json, "name"@) {
            Some(name) => name,
            None => string_or_empty(json, "login"@),
        },
    }
}

/// Where a user's image is.
pub open spec fn avatar_in(shape: UserShape, json: JsonView) -> Seq<char> {
    match shape {
        UserShape::Picture => string_or_empty(json, "picture"@),
        UserShape::Avatar => string_or_empty(json, "avatar_url"@),
    }
}

/// What a login knows while its requests are out.
#[derive(Debug)]
pub struct PendingLogin<P> {
    pub provider: P,
    /// What the provider is called.
    pub name: String,
    pub shape: UserShape,
    pub userinfo_url: String,
    pub introspect_url: Option<String>,
}

/// What a login does next.
#[derive(Debug)]
pub enum LoginStep<P> {
    /// Show the page.
    Page(LoginResult),
    /// Ask for a token with the form.
    Token { url: String, params: Vec<(String, String)>, login: PendingLogin<P> },
    /// Ask for the user with the token.
    UserInfo { url: String, token: String, login: PendingLogin<P> },
}

impl<P> LoginStep<P> {
    /// The login fails with that message.
    pub open spec fn fails(self, message: Seq<char>, provider_name: Seq<char>) -> bool {
        self matches LoginStep::Page(page) && page.fails(message, provider_name)
    }
}

/// What follows an answer to the token request: the user is asked for with the token that was granted, or the
/// login fails.
pub open spec fn asks_for_user<P>(login: PendingLogin<P>, fetched: Fetched, step: LoginStep<P>) -> bool {
    match step {
        LoginStep::UserInfo { url, token, login: l } => url@ == login.userinfo_url@ && l == login && (answer_of(
            fetched,
        ) matches AnswerView::Document(json) && granted(json) == Ok::<Seq<char>, Seq<char>>(token@)),
        LoginStep::Page(page) => !page.success && page.provider_name@ == login.name@ && (answer_of(
            fetched,
        ) matches AnswerView::Document(json) ==> granted(json) is Err),
        _ => false,
    }
}

/// The token request was answered: with a token the user is asked for, without one the login fails.
pub fn token_answered<P>(login: PendingLogin<P>, fetched: Fetched) -> (step: LoginStep<P>)
    ensures
        match answer_of(fetched) {
            AnswerView::Unsent(e) => step.fails("Token request failed: "@ + e, login.name@),
            AnswerView::Unreadable(e) => step.fails("Token response parse error: "@ + e, login.name@),
            AnswerView::Document(json) => match granted(json) {
                Ok(t) => step matches LoginStep::UserInfo { url, token, login: l } && url@ == login.userinfo_url@
                    && token@ == t && l == login,
                Err(reason) => step.fails("Token error: "@ + reason, login.name@),
            },
        },
        asks_for_user(login, fetched, step),
{
    let answer = match fetched {
        Fetched::Failed(e) => {
            return LoginStep::Page(
                render_error(joined("Token request failed: ", e.as_str()).as_str(), login.name.as_str()),
            );
        },
        Fetched::Answer(a) => a,
    };
    let json = match answer.json() {
        Err(e) => {
            return LoginStep::Page(
                render_error(joined("Token response parse error: ", e.as_str()).as_str(), login.name.as_str()),
            );
        },
        Ok(json) => json,
    };
    match read_grant(&json) {
        Ok(token) => {
            let url = login.userinfo_url.clone();
            LoginStep::UserInfo { url, token, login }
        },
        Err(reason) => LoginStep::Page(
            render_error(joined("Token error: ", reason.as_str()).as_str(), login.name.as_str()),
        ),
    }
}

/// Whether the page shows this user, and nothing that belongs to a session.
pub open spec fn shows_user(r: LoginResult, provider_name: Seq<char>, shape: UserShape, json: JsonView) -> bool {
    &&& r.success
    &&& r.provider_name@ == provider_name
    &&& r.user_name@ == user_name_in(shape, json)
    &&& r.user_email@ == string_or_empty(json, "email"@)
    &&& r.avatar_url@ == avatar_in(shape, json)
    &&& r.raw_json@ == pretty(json)
    &&& r.error_message@.len() == 0
}

/// The user was answered for: the page of the user, which no session belongs to yet, or the page of
/// the failure.
pub fn user_answered<P>(login: &PendingLogin<P>, fetched: Fetched) -> (r: Result<LoginResult, LoginResult>)
    ensures
        match answer_of(fetched) {
            AnswerView::Unsent(e) => r matches Err(page) && page.fails(
                "Userinfo request failed: "@ + e,
                login.name@,
            ),
            AnswerView::Unreadable(e) => r matches Err(page) && page.fails(
                "Userinfo parse error: "@ + e,
                login.name@,
            ),
            AnswerView::Document(json) => {
                &&& r matches Ok(page)
                &&& shows_user(page, login.name@, login.shape, json)
                &&& page.session_id@.len() == 0
                &&& page.curl_userinfo@.len() == 0
                &&& page.curl_introspect@.len() == 0
            },
        },
{
    let answer = match fetched {
        Fetched::Failed(e) => {
            return Err(render_error(joined("Userinfo request failed: ", e.as_str()).as_str(), login.name.as_str()));
        },
        Fetched::Answer(a) => a,
    };
    let printed = match answer.printed() {
        Err(e) => {
            return Err(render_error(joined("Userinfo parse error: ", e.as_str()).as_str(), login.name.as_str()));
        },
        Ok(printed) => printed,
    };
    let user_name = match login.shape {
        UserShape::Picture => read_or_empty(&printed.json, "name"),
        UserShape::Avatar => match printed.json.get_str("name") {
            Some(name) => name,
            None => read_or_empty(&printed.json, "login"),
        },
    };
    let user_email = read_or_empty(&printed.json, "email");
    let avatar_url = match login.shape {
        UserShape::Picture => read_or_empty(&printed.json, "picture"),
        UserShape::Avatar => read_or_empty(&printed.json, "avatar_url"),
    };
    Ok(
        LoginResult {
            success: true,
            provider_name: login.name.clone(),
            user_name,
            user_email,
            avatar_url,
            raw_json: printed.pretty,
            error_message: String::new(),
            session_id: String::new(),
            curl_userinfo: String::new(),
            curl_introspect: String::new(),
        },
    )
}

// -- Commands that show a token.

/// A token as it stands between double quotes in a command.
pub open spec fn quoted(token: Seq<char>) -> Seq<char> {
    replaced(replaced(token, '\\', "\\\\"@), '"', "\\\""@)
}

/// Escapes a token for double quotes.
pub fn quote(token: &str) -> (r: String)
    ensures
        r@ == quoted(token@),
{
    let once = replace_char(token, '\\', "\\\\");
    replace_char(once.as_str(), '"', "\\\"")
}

/// What a text between double quotes stands for: a backslash stands for the character behind it.
pub open spec fn unquoted(text: Seq<char>) -> Seq<char>
    decreases text.len(),
{
    if text.len() == 0 {
        Seq::empty()
    } else if text[0] == '\\' && text.len() > 1 {
        seq![text[1]] + unquoted(text.skip(2))
    } else {
        seq![text[0]] + unquoted(text.skip(1))
    }
}

proof fn lemma_replaced_concat(a: Seq<char>, b: Seq<char>, c: char, with: Seq<char>)
    ensures
        replaced(a + b, c, with) == replaced(a, c, with) + replaced(b, c, with),
    decreases b.len(),
{
    if b.len() == 0 {
        assert(a + b =~= a);
        assert(replaced(a, c, with) + replaced(b, c, with) =~= replaced(a, c, with));
    } else {
        assert((a + b).drop_last() =~= a + b.drop_last());
        assert((a + b).last() == b.last());
        lemma_replaced_concat(a, b.drop_last(), c, with);
        assert(replaced(a + b, c, with) =~= replaced(a, c, with) + replaced(b, c, with));
    }
}

proof fn lemma_replaced_one(x: char, c: char, with: Seq<char>)
    ensures
        replaced(seq![x], c, with) == (if x == c {
            with
        } else {
            seq![x]
        }),
{
    assert(seq![x].drop_last() =~= Seq::empty());
    assert(replaced(seq![x].drop_last(), c, with) =~= Seq::empty());
    assert(replaced(seq![x], c, with) =~= (if x == c {
        with
    } else {
        seq![x]
    }));
}

/// A quoted token stands for the token, whatever characters it has.
pub proof fn quoting_keeps_the_token(token: Seq<char>)
    ensures
        unquoted(quoted(token)) == token,
    decreases token.len(),
{
    reveal_strlit("\\\\");
    reveal_strlit("\\\"");
    if token.len() == 0 {
        assert(quoted(token) =~= Seq::empty());
        assert(unquoted(quoted(token)) =~= token);
    } else {
        let x = token[0];
        let rest = token.skip(1);
        let bs = "\\\\"@;
        let dq = "\\\""@;
        assert(token =~= seq![x] + rest);
        lemma_replaced_concat(seq![x], rest, '\\', bs);
        lemma_replaced_one(x, '\\', bs);
        let head = replaced(seq![x], '\\', bs);
        lemma_replaced_concat(head, replaced(rest, '\\', bs), '"', dq);
        assert(quoted(token) == replaced(head, '"', dq) + quoted(rest));
        if x == '\\' {
            assert(head =~= seq!['\\'] + seq!['\\']);
            lemma_replaced_concat(seq!['\\'], seq!['\\'], '"', dq);
            lemma_replaced_one('\\', '"', dq);
            assert(replaced(head, '"', dq) =~= seq!['\\', '\\']);
            assert(quoted(token).skip(2) =~= quoted(rest));
        } else if x == '"' {
            lemma_replaced_one(x, '"', dq);
            assert(replaced(head, '"', dq) =~= seq!['\\', '"']);
            assert(quoted(token).skip(2) =~= quoted(rest));
        } else {
            lemma_replaced_one(x, '"', dq);
            assert(quoted(token).skip(1) =~= quoted(rest));
        }
        quoting_keeps_the_token(rest);
        assert(unquoted(quoted(token)) =~= token);
    }
}

// -- What holds of the requests and the answers.

/// Credentials need both halves, and are those halves.
pub proof fn credentials_need_both_halves(id: Option<String>, secret: Option<String>)
    ensures
        credentials(id, secret) is Some <==> id is Some && secret is Some,
        credentials(id, secret) matches Some(c) ==> Some(c.client_id) == id && Some(c.client_secret) == secret,
{
}

/// An authorization request goes to the endpoint, and names the client, the callback, the scopes and the
/// state value, each as a query value; and it asks for a code.
pub proof fn an_authorization_request_names_everything(
    endpoint: Seq<char>,
    client_id: Seq<char>,
    redirect_uri: Seq<char>,
    scopes: Seq<char>,
    state: Seq<char>,
)
    ensures
        ({
            let url = authorization_request(endpoint, client_id, redirect_uri, scopes, state);
            &&& (endpoint + ("?client_id="@ + query_value(client_id) + "&"@)).is_prefix_of(url)
            &&& contains_part(url, "&redirect_uri="@ + query_value(redirect_uri) + "&"@)
            &&& contains_part(url, "&scope="@ + query_value(scopes) + "&"@)
            &&& contains_part(url, "&state="@ + query_value(state) + "&"@)
            &&& contains_part(url, "&response_type=code"@)
        }),
{
    reveal_strlit("&");
    reveal_strlit("&redirect_uri=");
    reveal_strlit("&scope=");
    reveal_strlit("&state=");
    reveal_strlit("&response_type=code");
    let url = authorization_request(endpoint, client_id, redirect_uri, scopes, state);
    let client = "?client_id="@ + query_value(client_id);
    let callback = "&redirect_uri="@ + query_value(redirect_uri);
    let asked = "&scope="@ + query_value(scopes);
    let kept = "&state="@ + query_value(state);
    let code = "&response_type=code"@;
    assert(url =~= endpoint + client + callback + asked + kept + code);
    let first = endpoint + (client + "&"@);
    assert(first =~= url.subrange(0, first.len() as int));
    let a = callback + "&"@;
    lemma_contains_between(endpoint + client, a, asked.skip(1) + kept + code);
    assert(url =~= endpoint + client + a + (asked.skip(1) + kept + code));
    let b = asked + "&"@;
    lemma_contains_between(endpoint + client + callback, b, kept.skip(1) + code);
    assert(url =~= endpoint + client + callback + b + (kept.skip(1) + code));
    let c = kept + "&"@;
    lemma_contains_between(endpoint + client + callback + asked, c, code.skip(1));
    assert(url =~= endpoint + client + callback + asked + c + code.skip(1));
    let whole = endpoint + client + callback + asked + kept + code;
    lemma_contains_between(endpoint + client + callback + asked + kept, code, Seq::empty());
    assert(whole + Seq::<char>::empty() =~= whole);
}

/// A token request carries the code, both credentials and the callback, and the verifier where there is
/// one.
pub proof fn a_token_request_carries_everything(
    code: Seq<char>,
    config: ProviderConfig,
    redirect_uri: Seq<char>,
    verifier: Option<Seq<char>>,
)
    ensures
        ({
            let fields = code_fields(code, config, redirect_uri, verifier);
            &&& holds_only(fields, "code"@, code)
            &&& holds_only(fields, "client_id"@, config.client_id@)
            &&& holds_only(fields, "client_secret"@, config.client_secret@)
            &&& holds_only(fields, "redirect_uri"@, redirect_uri)
            &&& holds_only(fields, "grant_type"@, "authorization_code"@)
            &&& match verifier {
                Some(v) => holds_only(fields, "code_verifier"@, v),
                None => holds_none(fields, "code_verifier"@),
            }
        }),
{
    reveal_strlit("grant_type");
    reveal_strlit("code");
    reveal_strlit("redirect_uri");
    reveal_strlit("client_id");
    reveal_strlit("code_verifier");
    reveal_strlit("client_secret");
    let fields = code_fields(code, config, redirect_uri, verifier);
    assert("code_verifier"@[2] != "client_secret"@[2]);
    assert(fields[0].0 == "code"@ && fields[1].0 == "client_id"@ && fields[2].0 == "client_secret"@ && fields[3].0
        == "redirect_uri"@ && fields[4].0 == "grant_type"@);
    lemma_holds_only(fields, 0);
    lemma_holds_only(fields, 1);
    lemma_holds_only(fields, 2);
    lemma_holds_only(fields, 3);
    lemma_holds_only(fields, 4);
    if verifier is Some {
        assert(fields[5] == ("code_verifier"@, verifier->0));
        lemma_holds_only(fields, 5);
    }
}

/// A token that is a string is granted, whatever else the answer says. Without one the login fails, with
/// the provider's own description where it gives one, or else with its error; where what it gives is no
/// string, it has said nothing.
pub proof fn a_token_is_granted(json: JsonView)
    ensures
        granted(json) is Ok <==> member(json, "access_token"@) matches Some(JsonView::Text(_)),
        member(json, "access_token"@) matches Some(JsonView::Text(token)) ==> granted(json) == Ok::<
            Seq<char>,
            Seq<char>,
        >(token),
        granted(json) is Err ==> {
            &&& member(json, "error_description"@) matches Some(JsonView::Text(said)) ==> granted(json)->Err_0 == said
            &&& member(json, "error_description"@) is None ==> (member(json, "error"@) matches Some(
                JsonView::Text(said),
            ) ==> granted(json)->Err_0 == said)
            &&& member(json, "error_description"@) is Some && !(member(json, "error_description"@)->0 is Text)
                ==> granted(json)->Err_0 == "no access_token in response"@
            &&& member(json, "error_description"@) is None && !(member(json, "error"@) is Some && member(
                json,
                "error"@,
            )->0 is Text) ==> granted(json)->Err_0 == "no access_token in response"@
        },
{
}

/// The user of an answer that is a document, whatever its status.
pub proof fn documents_are_taken_whatever_their_status(answer: Answer, json: JsonView)
    requires
        answer.body matches Ok(bytes) && parsed(bytes@) == Ok::<JsonView, Seq<char>>(json),
    ensures
        answer_of(Fetched::Answer(answer)) == AnswerView::Document(json),
{
}

/// A login that failed shows why, and nothing of a user or a session.
pub proof fn a_failed_login_shows_why(page: LoginResult, message: Seq<char>, provider_name: Seq<char>)
    requires
        page.fails(message, provider_name),
    ensures
        !page.success,
        page.error_message@ == message,
        page.provider_name@ == provider_name,
        page.user_name@.len() == 0 && page.user_email@.len() == 0 && page.avatar_url@.len() == 0,
        page.raw_json@.len() == 0 && page.session_id@.len() == 0,
        page.curl_userinfo@.len() == 0 && page.curl_introspect@.len() == 0,
{
}

/// A token that the provider grants is the one that the user is asked for with, at the endpoint that the login
/// knows; an answer without one fails the login.
pub proof fn the_granted_token_asks_for_the_user<P>(
    login: PendingLogin<P>,
    answer: Answer,
    json: JsonView,
    step: LoginStep<P>,
)
    requires
        asks_for_user(login, Fetched::Answer(answer), step),
        answer.body matches Ok(bytes) && parsed(bytes@) == Ok::<JsonView, Seq<char>>(json),
    ensures
        member(json, "access_token"@) matches Some(JsonView::Text(t)) ==> step is UserInfo && step->token@ == t
            && step->UserInfo_url@ == login.userinfo_url@ && step->UserInfo_login == login,
        !(member(json, "access_token"@) matches Some(JsonView::Text(_))) ==> step is Page && !step->Page_0.success,
{
    a_token_is_granted(json);
}

} // verus!
