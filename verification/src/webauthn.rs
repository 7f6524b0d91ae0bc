//! Passkeys: registering them, signing in with them, and keeping them as lines of JSON. What a
//! passkey is, and whether an authenticator's answer is good, is decided by `webauthn_rs`.
use vstd::hash_map::*;
use vstd::prelude::*;
use vstd::string::*;
use vstd::utf8::*;

use webauthn_rs::prelude::{
    CreationChallengeResponse, Passkey, PasskeyAuthentication, PasskeyRegistration, PublicKeyCredential,
    RegisterPublicKeyCredential, RequestChallengeResponse, Webauthn,
};

use crate::encoding::{b64url, base64url};
use crate::json::{
    import, lemma_object_view, member, member_items, member_string, member_views, parsed, text_json,
    the_first_member_counts, value_view, Json, JsonView,
};
use crate::text::{first_index, is_space, is_utf8, joined, leading_spaces, line_list, lines_of, opt_text, trim, trimmed};
use crate::urls::{parse_url, parsed_url};

verus! {

// -- The types of webauthn_rs.

/// `webauthn_rs::Webauthn`, a configured site.
#[verifier::external_type_specification]
#[verifier::external_body]
pub struct ExWebauthn(Webauthn);

/// `webauthn_rs::prelude::Passkey`, a registered passkey.
#[verifier::external_type_specification]
#[verifier::external_body]
pub struct ExPasskey(Passkey);

/// `webauthn_rs::prelude::PasskeyRegistration`, a registration under way.
#[verifier::external_type_specification]
#[verifier::external_body]
pub struct ExPasskeyRegistration(PasskeyRegistration);

/// `webauthn_rs::prelude::PasskeyAuthentication`, an authentication under way.
#[verifier::external_type_specification]
#[verifier::external_body]
pub struct ExPasskeyAuthentication(PasskeyAuthentication);

/// `webauthn_rs::prelude::CreationChallengeResponse`, what a browser needs to register.
#[verifier::external_type_specification]
#[verifier::external_body]
pub struct ExCreationChallengeResponse(CreationChallengeResponse);

/// `webauthn_rs::prelude::RequestChallengeResponse`, what a browser needs to authenticate.
#[verifier::external_type_specification]
#[verifier::external_body]
pub struct ExRequestChallengeResponse(RequestChallengeResponse);

/// `webauthn_rs::prelude::RegisterPublicKeyCredential`, what an authenticator registers.
#[verifier::external_type_specification]
#[verifier::external_body]
pub struct ExRegisterPublicKeyCredential(RegisterPublicKeyCredential);

/// `webauthn_rs::prelude::PublicKeyCredential`, what an authenticator signs in with.
#[verifier::external_type_specification]
#[verifier::external_body]
pub struct ExPublicKeyCredential(PublicKeyCredential);

/// What the browser and this site need for a registration.
pub type BegunRegistration = (CreationChallengeResponse, PasskeyRegistration);

/// What the browser and this site need for an authentication.
pub type BegunAuthentication = (RequestChallengeResponse, PasskeyAuthentication);

// -- The calls into webauthn_rs.

/// Whether an identifier of a site is that of a domain or of one above it.
pub open spec fn is_domain_of(rp_id: Seq<char>, domain: Option<Seq<char>>) -> bool {
    domain matches Some(d) && (d == rp_id || ("."@ + rp_id).is_suffix_of(d))
}

/// The site of an identifier and an origin, as `WebauthnBuilder` makes it.
pub uninterp spec fn webauthn_for(rp_id: Seq<char>, origin: Seq<char>) -> Webauthn;

/// The identifier of a site.
pub uninterp spec fn site_id(webauthn: Webauthn) -> Seq<char>;

/// How many milliseconds a site gives an authenticator.
pub uninterp spec fn timeout_millis(webauthn: Webauthn) -> nat;

/// `WebauthnBuilder::new` and `WebauthnBuilder::build`. The builder takes an identifier that is the
/// origin's domain or one above it, and refuses any other in the words that are stated; building
/// does not fail. The site has that identifier, and gives an authenticator five minutes.
#[verifier::external_body]
fn make_webauthn(rp_id: &str, origin: &str) -> (r: Result<Webauthn, String>)
    requires
        parsed_url(origin@) is Ok,
    ensures
        r is Ok <==> is_domain_of(rp_id@, parsed_url(origin@)->Ok_0.domain),
        r matches Ok(w) ==> w == webauthn_for(rp_id@, origin@),
        r matches Ok(w) ==> site_id(w) == rp_id@ && timeout_millis(w) == 300_000,
        r matches Err(e) ==> e@ == "webauthn builder: The configuration was invalid"@,
{
    let origin = url::Url::parse(origin).map_err(|e| e.to_string())?;
    webauthn_rs::prelude::WebauthnBuilder::new(rp_id, &origin)
        .map_err(|e| format!("webauthn builder: {}", e))?
        .build()
        .map_err(|e| format!("webauthn build: {}", e))
}

/// Whether a document asks an authenticator to register a user of that name with that site, and
/// has a challenge.
pub open spec fn asks_to_register(
    document: Option<JsonView>,
    site: Seq<char>,
    user: Seq<char>,
    display: Seq<char>,
) -> bool {
    &&& document matches Some(json)
    &&& member(json, "publicKey"@) matches Some(key)
    &&& member_string(key, "challenge"@) is Some
    &&& member(key, "rp"@) matches Some(rp)
    &&& member_string(rp, "id"@) == Some(site)
    &&& member(key, "user"@) matches Some(who)
    &&& member_string(who, "name"@) == Some(user)
    &&& member_string(who, "displayName"@) == Some(display)
}

/// The challenge of a registration under way, as the browser is given it.
pub uninterp spec fn registration_challenge(state: PasskeyRegistration) -> Option<Seq<char>>;

/// `Webauthn::start_passkey_registration` for a fresh user identifier. It fails for an empty name
/// alone, and panics where the time that the site gives is no `u32`. The document for the browser
/// asks for what is stated, and the registration under way has the document's challenge. The
/// challenge and the user identifier are random, and nothing else is said of them.
#[verifier::external_body]
fn begin_registration(webauthn: &Webauthn, user: &str, display: &str) -> (r: Option<BegunRegistration>)
    requires
        timeout_millis(*webauthn) <= u32::MAX,
    ensures
        r is Some <==> (user@.len() > 0 && display@.len() > 0),
        r is Some ==> asks_to_register(creation_document((r->0).0), site_id(*webauthn), user@, display@),
        r is Some ==> registration_challenge((r->0).1) == offered_challenge(creation_document((r->0).0)),
{
    webauthn
        .start_passkey_registration(webauthn_rs::prelude::Uuid::new_v4(), user, display, None)
        .ok()
}

/// What `Webauthn::finish_passkey_registration` makes of an authenticator's answer.
pub uninterp spec fn registered_passkey(
    webauthn: Webauthn,
    credential: RegisterPublicKeyCredential,
    state: PasskeyRegistration,
) -> Option<Passkey>;

/// `Webauthn::finish_passkey_registration`: the verdict is a function of the site, the answer and
/// the registration that it belongs to.
#[verifier::external_body]
fn finish_registration(webauthn: &Webauthn, credential: &RegisterPublicKeyCredential, state: &PasskeyRegistration) -> (r:
    Option<Passkey>)
    ensures
        r == registered_passkey(*webauthn, *credential, *state),
{
    webauthn.finish_passkey_registration(credential, state).ok()
}

/// Whether a document asks an authenticator to sign in at that site with one of the passkeys, and
/// has a challenge.
pub open spec fn asks_to_sign_in(document: Option<JsonView>, site: Seq<char>, passkeys: Seq<Passkey>) -> bool {
    &&& document matches Some(json)
    &&& member(json, "publicKey"@) matches Some(key)
    &&& member_string(key, "challenge"@) is Some
    &&& member_string(key, "rpId"@) == Some(site)
    &&& member_items(key, "allowCredentials"@) matches Some(items)
    &&& items.len() == passkeys.len()
    &&& forall|i: int|
        0 <= i < items.len() ==> member_string(#[trigger] items[i], "id"@) == Some(base64url(passkey_id(passkeys[i])))
}

/// The challenge of an authentication under way, as the browser is given it.
pub uninterp spec fn authentication_challenge(state: PasskeyAuthentication) -> Option<Seq<char>>;

/// The identifiers of the passkeys that an authentication under way takes.
pub uninterp spec fn authentication_ids(state: PasskeyAuthentication) -> Seq<Seq<u8>>;

/// The identifiers of passkeys.
pub open spec fn passkey_ids(passkeys: Seq<Passkey>) -> Seq<Seq<u8>> {
    Seq::new(passkeys.len(), |i: int| passkey_id(passkeys[i]))
}

/// `Webauthn::start_passkey_authentication`. It does not fail, and panics where the time that the
/// site gives is no `u32`. The document for the browser asks for what is stated; the authentication
/// under way has the document's challenge and takes the passkeys that were given. The challenge is
/// random, and nothing else is said of it.
#[verifier::external_body]
fn begin_authentication(webauthn: &Webauthn, passkeys: &Vec<Passkey>) -> (r: Option<BegunAuthentication>)
    requires
        timeout_millis(*webauthn) <= u32::MAX,
    ensures
        r is Some,
        r is Some ==> asks_to_sign_in(request_document((r->0).0), site_id(*webauthn), passkeys@),
        r is Some ==> authentication_challenge((r->0).1) == offered_challenge(request_document((r->0).0)),
        r is Some ==> authentication_ids((r->0).1) == passkey_ids(passkeys@),
{
    webauthn.start_passkey_authentication(passkeys.as_slice()).ok()
}

/// The identifier of the passkey that `Webauthn::finish_passkey_authentication` finds in an
/// authenticator's answer, if the answer is good.
pub uninterp spec fn authenticated_id(
    webauthn: Webauthn,
    credential: PublicKeyCredential,
    state: PasskeyAuthentication,
) -> Option<Seq<u8>>;

/// `Webauthn::finish_passkey_authentication`, and `AuthenticationResult::cred_id` of its result: the
/// verdict is a function of the site, the answer and the authentication that it belongs to.
#[verifier::external_body]
fn finish_authentication(webauthn: &Webauthn, credential: &PublicKeyCredential, state: &PasskeyAuthentication) -> (r:
    Option<Vec<u8>>)
    ensures
        match r {
            Some(id) => authenticated_id(*webauthn, *credential, *state) == Some(id@),
            None => authenticated_id(*webauthn, *credential, *state) is None,
        },
{
    webauthn.finish_passkey_authentication(credential, state).ok().map(|result| {
        let id: &[u8] = result.cred_id().as_ref();
        id.to_vec()
    })
}

/// The client data in an authenticator's answer to a registration.
pub uninterp spec fn registration_data(credential: RegisterPublicKeyCredential) -> Seq<u8>;

/// The field `response.client_data_json` of `RegisterPublicKeyCredential`.
#[verifier::external_body]
fn registration_bytes(credential: &RegisterPublicKeyCredential) -> (r: Vec<u8>)
    ensures
        r@ == registration_data(*credential),
{
    let bytes: &[u8] = credential.response.client_data_json.as_ref();
    bytes.to_vec()
}

/// The client data in an authenticator's answer to an authentication.
pub uninterp spec fn authentication_data(credential: PublicKeyCredential) -> Seq<u8>;

/// The field `response.client_data_json` of `PublicKeyCredential`.
#[verifier::external_body]
fn authentication_bytes(credential: &PublicKeyCredential) -> (r: Vec<u8>)
    ensures
        r@ == authentication_data(*credential),
{
    let bytes: &[u8] = credential.response.client_data_json.as_ref();
    bytes.to_vec()
}

/// What a browser needs to register, as a document.
pub uninterp spec fn creation_document(options: CreationChallengeResponse) -> Option<JsonView>;

/// `serde_json::to_value` of a `CreationChallengeResponse`.
#[verifier::external_body]
fn creation_value(options: &CreationChallengeResponse) -> (r: Option<serde_json::Value>)
    ensures
        match r {
            Some(v) => creation_document(*options) == Some(value_view(v)),
            None => creation_document(*options) is None,
        },
{
    serde_json::to_value(options).ok()
}

/// What a browser needs to authenticate, as a document.
pub uninterp spec fn request_document(options: RequestChallengeResponse) -> Option<JsonView>;

/// `serde_json::to_value` of a `RequestChallengeResponse`.
#[verifier::external_body]
fn request_value(options: &RequestChallengeResponse) -> (r: Option<serde_json::Value>)
    ensures
        match r {
            Some(v) => request_document(*options) == Some(value_view(v)),
            None => request_document(*options) is None,
        },
{
    serde_json::to_value(options).ok()
}

/// The identifier of a passkey.
pub uninterp spec fn passkey_id(passkey: Passkey) -> Seq<u8>;

/// `Passkey::cred_id`, as bytes.
#[verifier::external_body]
fn id_of(passkey: &Passkey) -> (id: Vec<u8>)
    ensures
        id@ == passkey_id(*passkey),
{
    let id: &[u8] = passkey.cred_id().as_ref();
    id.to_vec()
}

/// The passkey that a text stands for, if it does.
pub uninterp spec fn parsed_passkey(text: Seq<char>) -> Option<Passkey>;

/// `serde_json::from_str` into a `Passkey`: a function of the text.
#[verifier::external_body]
fn parse_passkey(text: &str) -> (r: Option<Passkey>)
    ensures
        r == parsed_passkey(text@),
{
    serde_json::from_str::<Passkey>(text).ok()
}

/// The text of a passkey.
pub uninterp spec fn passkey_text(passkey: Passkey) -> Option<Seq<char>>;

/// `serde_json::to_string` of a `Passkey`: the text of an object on one line, from which the passkey
/// can be read back with its identifier.
#[verifier::external_body]
fn print_passkey(passkey: &Passkey) -> (r: Option<String>)
    ensures
        opt_text(r) == passkey_text(*passkey),
        r matches Some(t) ==> is_line(t@),
        r matches Some(t) ==> (parsed_passkey(t@) matches Some(p) && passkey_id(p) == passkey_id(*passkey)),
{
    serde_json::to_string(passkey).ok()
}

/// Whether a text is an object on one line.
pub open spec fn is_line(text: Seq<char>) -> bool {
    &&& text.len() >= 2
    &&& text[0] == '{'
    &&& text.last() == '}'
    &&& !text.contains('\n')
}

/// The public key of a passkey, by its parts.
#[derive(Debug)]
pub enum KeyParts {
    Ec { curve: String, x: Vec<u8>, y: Vec<u8> },
    Okp { curve: String, x: Vec<u8> },
    Rsa { n: Vec<u8>, e: Vec<u8> },
}

/// What the parts of a public key are.
pub enum KeyView {
    Ec { curve: Seq<char>, x: Seq<u8>, y: Seq<u8> },
    Okp { curve: Seq<char>, x: Seq<u8> },
    Rsa { n: Seq<u8>, e: Seq<u8> },
}

impl View for KeyParts {
    type V = KeyView;

    open spec fn view(&self) -> KeyView {
        match self {
            KeyParts::Ec { curve, x, y } => KeyView::Ec { curve: curve@, x: x@, y: y@ },
            KeyParts::Okp { curve, x } => KeyView::Okp { curve: curve@, x: x@ },
            KeyParts::Rsa { n, e } => KeyView::Rsa { n: n@, e: e@ },
        }
    }
}

/// The public key of a passkey.
pub uninterp spec fn passkey_key(passkey: Passkey) -> KeyView;

/// The field `key` of `Passkey::get_public_key`, part by part; a curve goes by the name that its
/// `Debug` prints.
#[verifier::external_body]
fn key_of(passkey: &Passkey) -> (key: KeyParts)
    ensures
        key@ == passkey_key(*passkey),
{
    match &passkey.get_public_key().key {
        webauthn_rs::prelude::COSEKeyType::EC_EC2(ec) => {
            KeyParts::Ec { curve: format!("{:?}", ec.curve), x: ec.x.to_vec(), y: ec.y.to_vec() }
        },
        webauthn_rs::prelude::COSEKeyType::EC_OKP(okp) => {
            KeyParts::Okp { curve: format!("{:?}", okp.curve), x: okp.x.to_vec() }
        },
        webauthn_rs::prelude::COSEKeyType::RSA(rsa) => KeyParts::Rsa { n: rsa.n.to_vec(), e: rsa.e.to_vec() },
    }
}

/// The name of a passkey's algorithm.
pub uninterp spec fn passkey_algorithm(passkey: Passkey) -> Seq<char>;

/// The field `type_` of `Passkey::get_public_key`, by the name that its `Debug` prints.
#[verifier::external_body]
fn algorithm_of(passkey: &Passkey) -> (name: String)
    ensures
        name@ == passkey_algorithm(*passkey),
{
    format!("{:?}", passkey.get_public_key().type_)
}

// -- Credentials that signed in.

/// A credential that signed in.
#[derive(Debug)]
pub struct AuthedCredential {
    pub cred_id: String,
    pub algorithm: String,
    pub key: AuthedKey,
}

/// The public key of a credential that signed in.
#[derive(Debug)]
#[allow(non_camel_case_types)]
pub enum AuthedKey {
    EC_EC2 { curve: String, x: String, y: String },
    EC_OKP { curve: String, x: String },
    RSA { n: String, e: String },
}

impl AuthedKey {
    /// Whether this is the key of these parts, with their bytes in base64url.
    pub open spec fn shows(self, key: KeyView) -> bool {
        match key {
            KeyView::Ec { curve: c, x: a, y: b } => self matches AuthedKey::EC_EC2 { curve, x, y } && curve@ == c && x@
                == base64url(a) && y@ == base64url(b),
            KeyView::Okp { curve: c, x: a } => self matches AuthedKey::EC_OKP { curve, x } && curve@ == c && x@
                == base64url(a),
            KeyView::Rsa { n: a, e: b } => self matches AuthedKey::RSA { n, e } && n@ == base64url(a) && e@
                == base64url(b),
        }
    }
}

/// Describes a key.
pub fn authed_key(key: KeyParts) -> (r: AuthedKey)
    ensures
        r.shows(key@),
{
    match key {
        KeyParts::Ec { curve, x, y } => AuthedKey::EC_EC2 { curve, x: b64url(x.as_slice()), y: b64url(y.as_slice()) },
        KeyParts::Okp { curve, x } => AuthedKey::EC_OKP { curve, x: b64url(x.as_slice()) },
        KeyParts::Rsa { n, e } => AuthedKey::RSA { n: b64url(n.as_slice()), e: b64url(e.as_slice()) },
    }
}

/// Describes a passkey that signed in.
pub fn build_authed_credential(passkey: &Passkey) -> (r: AuthedCredential)
    ensures
        r.cred_id@ == base64url(passkey_id(*passkey)),
        r.algorithm@ == passkey_algorithm(*passkey),
        r.key.shows(passkey_key(*passkey)),
{
    AuthedCredential {
        cred_id: b64url(id_of(passkey).as_slice()),
        algorithm: algorithm_of(passkey),
        key: authed_key(key_of(passkey)),
    }
}

// -- Challenges.

/// The challenge in what an authenticator signed: the member of that name of a JSON document.
pub open spec fn challenge_in(data: Seq<u8>) -> Option<Seq<char>> {
    if valid_utf8(data) {
        match parsed(data) {
            Ok(json) => member_string(json, "challenge"@),
            Err(_) => None,
        }
    } else {
        None
    }
}

/// Reads the challenge in what an authenticator signed.
pub fn client_data_challenge(client_data_json: &Vec<u8>) -> (r: Option<String>)
    ensures
        opt_text(r) == challenge_in(client_data_json@),
{
    if !is_utf8(client_data_json.as_slice()) {
        return None;
    }
    match Json::parse(client_data_json.as_slice()) {
        Ok(json) => json.get_str("challenge"),
        Err(_) => None,
    }
}

/// The challenge in what a browser needs.
pub open spec fn offered_challenge(document: Option<JsonView>) -> Option<Seq<char>> {
    match document {
        Some(json) => match member(json, "publicKey"@) {
            Some(key) => member_string(key, "challenge"@),
            None => None,
        },
        None => None,
    }
}

fn find_challenge(value: &Option<serde_json::Value>) -> (r: Option<String>)
    ensures
        opt_text(r) == offered_challenge(
            match *value {
                Some(v) => Some(value_view(v)),
                None => None,
            },
        ),
{
    match value {
        Some(v) => {
            let json = import(v);
            match json.get("publicKey") {
                Some(key) => key.get_str("challenge"),
                None => None,
            }
        },
        None => None,
    }
}

// -- The store of passkeys.

/// The passkeys in lines: the spaces around a line are skipped, and so is a line that holds no
/// passkey.
pub open spec fn passkeys_in(lines: Seq<Seq<char>>) -> Seq<Passkey>
    decreases lines.len(),
{
    if lines.len() == 0 {
        Seq::empty()
    } else {
        let before = passkeys_in(lines.drop_last());
        let line = trimmed(lines.last());
        if line.len() == 0 {
            before
        } else {
            match parsed_passkey(line) {
                Some(passkey) => before.push(passkey),
                None => before,
            }
        }
    }
}

/// Reads the passkeys in a text of lines.
pub fn load_credentials(data: &str) -> (r: Vec<Passkey>)
    ensures
        r@ == passkeys_in(line_list(data@)),
{
    let lines = lines_of(data);
    let ghost all = crate::text::texts(lines@);
    let mut r: Vec<Passkey> = Vec::new();
    let mut i: usize = 0;
    assert(all.take(0) =~= Seq::empty());
    assert(r@ =~= Seq::empty());
    while i < lines.len()
        invariant
            i <= lines@.len(),
            all == crate::text::texts(lines@),
            r@ == passkeys_in(all.take(i as int)),
        decreases lines@.len() - i,
    {
        proof {
            assert(all.take(i + 1).drop_last() =~= all.take(i as int));
            assert(all.take(i + 1).last() == lines@[i as int]@);
        }
        let line = trim(lines[i].as_str());
        let blank = line.as_str().unicode_len() == 0;
        if !blank {
            match parse_passkey(line.as_str()) {
                Some(passkey) => {
                    r.push(passkey);
                },
                None => {},
            }
        }
        i = i + 1;
    }
    assert(all.take(i as int) =~= all);
    r
}

// -- The site.

/// The state of the passkeys.
pub struct AppState {
    pub webauthn: Webauthn,
    pub credentials: Vec<Passkey>,
    pub pending_reg: StringHashMap<PasskeyRegistration>,
    pub pending_auth: StringHashMap<PasskeyAuthentication>,
}

/// Builds the state of a site from the passkeys that were kept.
pub fn build_state(fqdn: &str, origin_str: &str, kept: &str) -> (r: Result<AppState, String>)
    ensures
        match parsed_url(origin_str@) {
            Err(e) => r matches Err(text) && text@ == "origin URL: "@ + e,
            Ok(origin) => if is_domain_of(fqdn@, origin.domain) {
                &&& r matches Ok(state)
                &&& state.wf()
                &&& state.is_filed()
                &&& state.webauthn == webauthn_for(fqdn@, origin_str@)
                &&& site_id(state.webauthn) == fqdn@
                &&& state.credentials@ == passkeys_in(line_list(kept@))
                &&& state.pending_reg@ == Map::<Seq<char>, PasskeyRegistration>::empty()
                &&& state.pending_auth@ == Map::<Seq<char>, PasskeyAuthentication>::empty()
            } else {
                r matches Err(text) && text@ == "webauthn builder: The configuration was invalid"@
            },
        },
{
    match parse_url(origin_str) {
        Ok(_) => {},
        Err(e) => {
            return Err(joined("origin URL: ", e.as_str()));
        },
    }
    match make_webauthn(fqdn, origin_str) {
        Ok(webauthn) => Ok(
            AppState {
                webauthn,
                credentials: load_credentials(kept),
                pending_reg: StringHashMap::new(),
                pending_auth: StringHashMap::new(),
            },
        ),
        Err(e) => Err(e),
    }
}

/// The reply to a request for options: the options, or a status with a document.
pub enum OptionsReply<T> {
    Options(T),
    Refused { status: u16, body: Json },
}

impl<T> OptionsReply<T> {
    /// The request is refused like that.
    pub open spec fn refuses(self, code: u16, document: JsonView) -> bool {
        self matches OptionsReply::Refused { status, body } && status == code && body@ == document
    }
}

/// A document with one member.
pub open spec fn one_member(name: Seq<char>, value: JsonView) -> JsonView {
    JsonView::Object(seq![(name, value)])
}

fn write_member(name: &str, value: Json) -> (j: Json)
    ensures
        j@ == one_member(name@, value@),
{
    let mut members: Vec<(String, Json)> = Vec::new();
    members.push((name.to_owned(), value));
    let ghost all = member_views(members@);
    let j = Json::Object(members);
    proof {
        lemma_object_view(j);
        assert(all =~= seq![(name@, value@)]);
    }
    j
}

/// The reply to a registration: a status, a document, and the line to keep, if there is one.
#[derive(Debug)]
pub struct RegisterReply {
    pub status: u16,
    pub body: Json,
    pub keep: Option<String>,
}

/// The reply to an authentication.
#[derive(Debug)]
pub struct AuthReply {
    pub status: u16,
    pub body: Json,
}

impl AuthReply {
    /// What the reply says.
    pub open spec fn says(self, code: u16, document: JsonView) -> bool {
        self.status == code && self.body@ == document
    }
}

/// The first passkey with that identifier, from a position on.
pub open spec fn find_passkey(passkeys: Seq<Passkey>, id: Seq<u8>, from: int) -> Option<Passkey>
    decreases passkeys.len() - from,
{
    if from < 0 || from >= passkeys.len() {
        None
    } else if passkey_id(passkeys[from]) == id {
        Some(passkeys[from])
    } else {
        find_passkey(passkeys, id, from + 1)
    }
}

fn same_bytes(a: &Vec<u8>, b: &Vec<u8>) -> (r: bool)
    ensures
        r == (a@ == b@),
{
    if a.len() != b.len() {
        return false;
    }
    let mut i: usize = 0;
    while i < a.len()
        invariant
            i <= a@.len(),
            a@.len() == b@.len(),
            forall|j: int| 0 <= j < i ==> a@[j] == b@[j],
        decreases a@.len() - i,
    {
        if a[i] != b[i] {
            return false;
        }
        i = i + 1;
    }
    assert(a@ =~= b@);
    true
}

impl AppState {
    /// The site gives an authenticator a time that a browser can be told.
    pub open spec fn wf(self) -> bool {
        timeout_millis(self.webauthn) <= u32::MAX
    }

    /// Everything under way is kept under its own challenge.
    pub open spec fn is_filed(self) -> bool {
        &&& forall|c: Seq<char>| #[trigger]
            self.pending_reg@.contains_key(c) ==> registration_challenge(self.pending_reg@[c]) == Some(c)
        &&& forall|c: Seq<char>| #[trigger]
            self.pending_auth@.contains_key(c) ==> authentication_challenge(self.pending_auth@[c]) == Some(c)
    }

    /// Everything but the registrations under way is as it was.
    pub open spec fn keeps_but_registrations(self, after: Self) -> bool {
        &&& after.webauthn == self.webauthn
        &&& after.pending_auth@ == self.pending_auth@
    }

    /// What an answer to a registration does: only one whose challenge is waited for can add a passkey.
    pub open spec fn takes_registration(
        self,
        after: Self,
        cred: RegisterPublicKeyCredential,
        reply: RegisterReply,
    ) -> bool {
        let challenge = challenge_in(registration_data(cred));
        let waited = challenge is Some && self.pending_reg@.contains_key(challenge->0);
        &&& after.webauthn == self.webauthn
        &&& waited ==> after.pending_reg@ == self.pending_reg@.remove(challenge->0)
        &&& !waited ==> after.pending_reg@ == self.pending_reg@
        &&& reply.status == 200 <==> waited && registered_passkey(
            self.webauthn,
            cred,
            self.pending_reg@[challenge->0],
        ) is Some
        &&& reply.status != 200 ==> reply.status == 400 && reply.keep is None && after.credentials@ == self.credentials@
        &&& reply.status == 200 ==> after.credentials@ == self.credentials@.push(
            registered_passkey(self.webauthn, cred, self.pending_reg@[challenge->0])->0,
        )
        &&& reply.body@ == one_member("ok"@, JsonView::Bool(reply.status == 200))
    }

    /// What an answer to an authentication does: only one whose challenge is waited for can sign in.
    pub open spec fn takes_authentication(self, after: Self, cred: PublicKeyCredential, reply: AuthReply) -> bool {
        let challenge = challenge_in(authentication_data(cred));
        let waited = challenge is Some && self.pending_auth@.contains_key(challenge->0);
        let found = authenticated_id(self.webauthn, cred, self.pending_auth@[challenge->0]);
        &&& after.webauthn == self.webauthn
        &&& after.credentials@ == self.credentials@
        &&& waited ==> after.pending_auth@ == self.pending_auth@.remove(challenge->0)
        &&& !waited ==> after.pending_auth@ == self.pending_auth@
        &&& !waited ==> reply.says(400, one_member("ok"@, JsonView::Bool(false)))
        &&& waited && found is None ==> reply.says(401, one_member("ok"@, JsonView::Bool(false)))
        &&& waited && found is Some ==> reply.says(200, signed_in(self.credentials@, found->0))
    }

    /// Whether there is a passkey.
    pub fn status(&self) -> (j: Json)
        ensures
            j@ == one_member("registered"@, JsonView::Bool(self.credentials@.len() > 0)),
    {
        write_member("registered", Json::Bool(self.credentials.len() > 0))
    }

    /// Begins a registration, and keeps it under the challenge that the browser is given.
    pub fn register_options(&mut self) -> (reply: OptionsReply<CreationChallengeResponse>)
        requires
            old(self).wf(),
        ensures
            final(self).wf(),
            old(self).is_filed() ==> final(self).is_filed(),
            old(self).keeps_but_registrations(*final(self)),
            final(self).credentials == old(self).credentials,
            ({
                &&& reply matches OptionsReply::Options(options)
                &&& asks_to_register(creation_document(options), site_id(old(self).webauthn), "user"@, "User"@)
                &&& offered_challenge(creation_document(options)) matches Some(c)
                &&& final(self).pending_reg@.contains_key(c)
                &&& registration_challenge(final(self).pending_reg@[c]) == Some(c)
                &&& final(self).pending_reg@ == old(self).pending_reg@.insert(c, final(self).pending_reg@[c])
            }),
    {
        proof {
            reveal_strlit("user");
            reveal_strlit("User");
        }
        let started = begin_registration(&self.webauthn, "user", "User");
        self.registration_started(started)
    }

    /// A registration was begun, or could not be.
    pub fn registration_started(
        &mut self,
        started: Option<BegunRegistration>,
    ) -> (reply: OptionsReply<CreationChallengeResponse>)
        ensures
            old(self).keeps_but_registrations(*final(self)),
            final(self).credentials == old(self).credentials,
            match started {
                Some((options, state)) => match offered_challenge(creation_document(options)) {
                    Some(challenge) => reply == OptionsReply::Options(options) && final(self).pending_reg@ == old(
                        self,
                    ).pending_reg@.insert(challenge, state),
                    None => reply.refuses(500, JsonView::Null) && final(self).pending_reg@ == old(self).pending_reg@,
                },
                None => reply.refuses(500, JsonView::Null) && final(self).pending_reg@ == old(self).pending_reg@,
            },
    {
        match started {
            Some((options, state)) => {
                let value = creation_value(&options);
                match find_challenge(&value) {
                    Some(challenge) => {
                        self.pending_reg.insert(challenge, state);
                        OptionsReply::Options(options)
                    },
                    None => OptionsReply::Refused { status: 500, body: Json::Null },
                }
            },
            None => OptionsReply::Refused { status: 500, body: Json::Null },
        }
    }

    /// An authenticator answered a registration. Its challenge tells which one; a registration is good
    /// for one answer. A passkey that is good is added, and its line is to be kept.
    pub fn register_verify(&mut self, cred: &RegisterPublicKeyCredential) -> (reply: RegisterReply)
        ensures
            old(self).is_filed() ==> final(self).is_filed(),
            old(self).keeps_but_registrations(*final(self)),
            match challenge_in(registration_data(*cred)) {
                Some(challenge) if old(self).pending_reg@.contains_key(challenge) => {
                    let state = old(self).pending_reg@[challenge];
                    &&& final(self).pending_reg@ == old(self).pending_reg@.remove(challenge)
                    &&& match registered_passkey(old(self).webauthn, *cred, state) {
                        Some(passkey) => {
                            &&& final(self).credentials@ == old(self).credentials@.push(passkey)
                            &&& reply.status == 200
                            &&& reply.body@ == one_member("ok"@, JsonView::Bool(true))
                            &&& opt_text(reply.keep) == passkey_text(passkey)
                            &&& reply.keep matches Some(line) ==> is_line(line@) && (parsed_passkey(
                                line@,
                            ) matches Some(p) && passkey_id(p) == passkey_id(passkey))
                        },
                        None => {
                            &&& final(self).credentials@ == old(self).credentials@
                            &&& reply.status == 400
                            &&& reply.body@ == one_member("ok"@, JsonView::Bool(false))
                            &&& reply.keep is None
                        },
                    }
                },
                _ => {
                    &&& final(self).pending_reg@ == old(self).pending_reg@
                    &&& final(self).credentials@ == old(self).credentials@
                    &&& reply.status == 400
                    &&& reply.body@ == one_member("ok"@, JsonView::Bool(false))
                    &&& reply.keep is None
                },
            },
            old(self).takes_registration(*final(self), *cred, reply),
    {
        let data = registration_bytes(cred);
        let challenge = match client_data_challenge(&data) {
            Some(c) => c,
            None => {
                return RegisterReply { status: 400, body: write_member("ok", Json::Bool(false)), keep: None };
            },
        };
        let registered = match self.pending_reg.get(challenge.as_str()) {
            Some(state) => finish_registration(&self.webauthn, cred, state),
            None => {
                return RegisterReply { status: 400, body: write_member("ok", Json::Bool(false)), keep: None };
            },
        };
        self.pending_reg.remove(challenge.as_str());
        match registered {
            Some(passkey) => {
                let keep = print_passkey(&passkey);
                self.credentials.push(passkey);
                RegisterReply { status: 200, body: write_member("ok", Json::Bool(true)), keep }
            },
            None => RegisterReply { status: 400, body: write_member("ok", Json::Bool(false)), keep: None },
        }
    }

    /// Begins an authentication with all the passkeys, and keeps it under the challenge that the
    /// browser is given. Without a passkey there is nothing to begin.
    pub fn auth_options(&mut self) -> (reply: OptionsReply<RequestChallengeResponse>)
        requires
            old(self).wf(),
        ensures
            final(self).wf(),
            old(self).is_filed() ==> final(self).is_filed(),
            final(self).webauthn == old(self).webauthn,
            final(self).credentials == old(self).credentials,
            final(self).pending_reg@ == old(self).pending_reg@,
            if old(self).credentials@.len() == 0 {
                &&& reply.refuses(400, one_member("error"@, JsonView::Text("no_credentials"@)))
                &&& final(self).pending_auth@ == old(self).pending_auth@
            } else {
                &&& reply matches OptionsReply::Options(options)
                &&& asks_to_sign_in(request_document(options), site_id(old(self).webauthn), old(self).credentials@)
                &&& offered_challenge(request_document(options)) matches Some(c)
                &&& final(self).pending_auth@.contains_key(c)
                &&& authentication_challenge(final(self).pending_auth@[c]) == Some(c)
                &&& authentication_ids(final(self).pending_auth@[c]) == passkey_ids(old(self).credentials@)
                &&& final(self).pending_auth@ == old(self).pending_auth@.insert(c, final(self).pending_auth@[c])
            },
    {
        if self.credentials.len() == 0 {
            return OptionsReply::Refused { status: 400, body: write_member("error", text_json("no_credentials")) };
        }
        let started = begin_authentication(&self.webauthn, &self.credentials);
        self.authentication_started(started)
    }

    /// An authentication was begun, or could not be.
    pub fn authentication_started(
        &mut self,
        started: Option<BegunAuthentication>,
    ) -> (reply: OptionsReply<RequestChallengeResponse>)
        ensures
            final(self).webauthn == old(self).webauthn,
            final(self).credentials == old(self).credentials,
            final(self).pending_reg@ == old(self).pending_reg@,
            match started {
                Some((options, state)) => match offered_challenge(request_document(options)) {
                    Some(challenge) => reply == OptionsReply::Options(options) && final(self).pending_auth@ == old(
                        self,
                    ).pending_auth@.insert(challenge, state),
                    None => reply.refuses(500, JsonView::Null) && final(self).pending_auth@ == old(self).pending_auth@,
                },
                None => reply.refuses(500, JsonView::Null) && final(self).pending_auth@ == old(self).pending_auth@,
            },
    {
        match started {
            Some((options, state)) => {
                let value = request_value(&options);
                match find_challenge(&value) {
                    Some(challenge) => {
                        self.pending_auth.insert(challenge, state);
                        OptionsReply::Options(options)
                    },
                    None => OptionsReply::Refused { status: 500, body: Json::Null },
                }
            },
            None => OptionsReply::Refused { status: 500, body: Json::Null },
        }
    }

    /// An authenticator answered an authentication. Its challenge tells which one; an authentication
    /// is good for one answer.
    pub fn auth_verify(&mut self, cred: &PublicKeyCredential) -> (reply: AuthReply)
        ensures
            old(self).is_filed() ==> final(self).is_filed(),
            final(self).webauthn == old(self).webauthn,
            final(self).credentials == old(self).credentials,
            final(self).pending_reg@ == old(self).pending_reg@,
            match challenge_in(authentication_data(*cred)) {
                Some(challenge) if old(self).pending_auth@.contains_key(challenge) => {
                    let state = old(self).pending_auth@[challenge];
                    &&& final(self).pending_auth@ == old(self).pending_auth@.remove(challenge)
                    &&& match authenticated_id(old(self).webauthn, *cred, state) {
                        Some(id) => reply.says(200, signed_in(old(self).credentials@, id)),
                        None => reply.says(401, one_member("ok"@, JsonView::Bool(false))),
                    }
                },
                _ => {
                    &&& final(self).pending_auth@ == old(self).pending_auth@
                    &&& reply.says(400, one_member("ok"@, JsonView::Bool(false)))
                },
            },
            old(self).takes_authentication(*final(self), *cred, reply),
    {
        let data = authentication_bytes(cred);
        let challenge = match client_data_challenge(&data) {
            Some(c) => c,
            None => {
                return AuthReply { status: 400, body: write_member("ok", Json::Bool(false)) };
            },
        };
        let authenticated = match self.pending_auth.get(challenge.as_str()) {
            Some(state) => finish_authentication(&self.webauthn, cred, state),
            None => {
                return AuthReply { status: 400, body: write_member("ok", Json::Bool(false)) };
            },
        };
        self.pending_auth.remove(challenge.as_str());
        match authenticated {
            Some(id) => AuthReply { status: 200, body: self.signed_in_with(&id) },
            None => AuthReply { status: 401, body: write_member("ok", Json::Bool(false)) },
        }
    }

    /// What a user who signed in with that identifier is told.
    pub fn signed_in_with(&self, id: &Vec<u8>) -> (j: Json)
        ensures
            j@ == signed_in(self.credentials@, id@),
    {
        match self.credential(id) {
            Some(passkey) => {
                let authed = build_authed_credential(passkey);
                let mut members: Vec<(String, Json)> = Vec::new();
                members.push(("cred_id".to_owned(), Json::Text(authed.cred_id)));
                members.push(("ok".to_owned(), Json::Bool(true)));
                let ghost all = member_views(members@);
                let j = Json::Object(members);
                proof {
                    lemma_object_view(j);
                    lemma_find_passkey_id(self.credentials@, id@, 0);
                    assert(all =~= signed_in(self.credentials@, id@)->Object_0);
                }
                j
            },
            None => write_member("ok", Json::Bool(true)),
        }
    }

    /// The first passkey with that identifier.
    pub fn credential(&self, id: &Vec<u8>) -> (r: Option<&Passkey>)
        ensures
            match r {
                Some(passkey) => find_passkey(self.credentials@, id@, 0) == Some(*passkey),
                None => find_passkey(self.credentials@, id@, 0) is None,
            },
    {
        let mut i: usize = 0;
        while i < self.credentials.len()
            invariant
                i <= self.credentials@.len(),
                find_passkey(self.credentials@, id@, 0) == find_passkey(self.credentials@, id@, i as int),
            decreases self.credentials@.len() - i,
        {
            let here = id_of(&self.credentials[i]);
            if same_bytes(&here, id) {
                return Some(&self.credentials[i]);
            }
            i = i + 1;
        }
        None
    }
}

/// What a user who signed in is told: the identifier of the passkey, if it is known.
pub open spec fn signed_in(passkeys: Seq<Passkey>, id: Seq<u8>) -> JsonView {
    match find_passkey(passkeys, id, 0) {
        Some(_) => JsonView::Object(
            seq![("cred_id"@, JsonView::Text(base64url(id))), ("ok"@, JsonView::Bool(true))],
        ),
        None => one_member("ok"@, JsonView::Bool(true)),
    }
}

/// The passkey that is found has the identifier that was looked for.
proof fn lemma_find_passkey_id(passkeys: Seq<Passkey>, id: Seq<u8>, from: int)
    ensures
        find_passkey(passkeys, id, from) matches Some(p) ==> passkey_id(p) == id,
    decreases passkeys.len() - from,
{
    if 0 <= from < passkeys.len() && passkey_id(passkeys[from]) != id {
        lemma_find_passkey_id(passkeys, id, from + 1);
    }
}

/// The first line feed of a text is also that of a longer one.
proof fn lemma_first_index_extends(text: Seq<char>, more: Seq<char>, c: char, from: int)
    requires
        0 <= from,
        first_index(text, c, from) < text.len(),
    ensures
        first_index(text + more, c, from) == first_index(text, c, from),
        from <= first_index(text, c, from),
        text[first_index(text, c, from)] == c,
    decreases text.len() - from,
{
    if from < text.len() && text[from] != c {
        lemma_first_index_extends(text, more, c, from + 1);
    }
}

/// A text that holds a character has a first one.
proof fn lemma_first_index_found(text: Seq<char>, c: char, from: int, at: int)
    requires
        0 <= from <= at < text.len(),
        text[at] == c,
    ensures
        from <= first_index(text, c, from) <= at,
    decreases at - from,
{
    if from < at && text[from] != c {
        lemma_first_index_found(text, c, from + 1, at);
    }
}

/// A text that does not hold a character has no first one before it ends.
proof fn lemma_first_index_at_end(text: Seq<char>, c: char, from: int)
    requires
        0 <= from <= text.len(),
        !text.contains(c),
    ensures
        first_index(text.push(c), c, from) == text.len(),
    decreases text.len() - from,
{
    if from < text.len() {
        assert(text.push(c)[from] == text[from]);
        assert(text.contains(text[from]));
        lemma_first_index_at_end(text, c, from + 1);
    }
}

/// Whole lines and what follows them are read one after the other.
proof fn lemma_lines_concat(lines: Seq<char>, more: Seq<char>)
    requires
        lines.len() == 0 || lines.last() == '\n',
    ensures
        line_list(lines + more) == line_list(lines) + line_list(more),
    decreases lines.len(),
{
    if lines.len() == 0 {
        assert(lines + more =~= more);
        assert(first_index(lines, '\n', 0) == 0);
        assert(line_list(lines) =~= Seq::empty());
        assert(line_list(lines) + line_list(more) =~= line_list(more));
    } else {
        let at = first_index(lines, '\n', 0);
        lemma_first_index_found(lines, '\n', 0, lines.len() - 1);
        lemma_first_index_extends(lines, more, '\n', 0);
        let rest = lines.skip(at + 1);
        assert((lines + more).take(at) =~= lines.take(at));
        assert((lines + more).skip(at + 1) =~= rest + more);
        if rest.len() > 0 {
            assert(rest.last() == lines.last());
        }
        lemma_lines_concat(rest, more);
        assert(line_list(lines + more) =~= line_list(lines) + line_list(more));
    }
}

/// What is kept is loaded: a line that is added below whole lines adds the passkey that it stands
/// for to those that the lines stand for.
pub proof fn kept_passkeys_are_loaded(kept: Seq<char>, line: Seq<char>)
    requires
        kept.len() == 0 || kept.last() == '\n',
        is_line(line),
    ensures
        passkeys_in(line_list(kept + line + seq!['\n'])) == (match parsed_passkey(line) {
            Some(passkey) => passkeys_in(line_list(kept)).push(passkey),
            None => passkeys_in(line_list(kept)),
        }),
{
    let added = line + seq!['\n'];
    assert(kept + line + seq!['\n'] =~= kept + added);
    lemma_lines_concat(kept, added);
    assert(added =~= line.push('\n'));
    lemma_first_index_at_end(line, '\n', 0);
    assert(added.take(line.len() as int) =~= line);
    assert(added.skip(line.len() as int + 1) =~= Seq::empty());
    let none = added.skip(line.len() as int + 1);
    assert(first_index(none, '\n', 0) == 0);
    assert(line_list(none) =~= Seq::empty());
    assert(line_list(added) =~= seq![line]);
    let lines = line_list(kept) + seq![line];
    assert(lines.drop_last() =~= line_list(kept));
    assert(!is_space('{') && !is_space('}'));
    assert(trimmed(line) =~= line) by {
        assert(leading_spaces(line) == 0);
        assert(line.skip(0) =~= line);
    }
}

// -- What holds of challenges and passkeys.

/// The challenge that an authenticator signed is the string under that name in its data, where the data is a
/// JSON document in UTF-8; the one that a browser is given stands below its public key.
pub proof fn challenges_are_read_where_they_stand(data: Seq<u8>, json: JsonView, document: JsonView)
    ensures
        valid_utf8(data) && parsed(data) == Ok::<JsonView, Seq<char>>(json) ==> {
            &&& member(json, "challenge"@) matches Some(JsonView::Text(c)) ==> challenge_in(data) == Some(c)
            &&& challenge_in(data) matches Some(c) ==> member(json, "challenge"@) == Some(JsonView::Text(c))
        },
        !valid_utf8(data) || parsed(data) is Err ==> challenge_in(data) is None,
        offered_challenge(Some(document)) matches Some(c) ==> (member(document, "publicKey"@) matches Some(key)
            && member(key, "challenge"@) == Some(JsonView::Text(c))),
        member(document, "publicKey"@) matches Some(key) ==> (member(key, "challenge"@) matches Some(
            JsonView::Text(c),
        ) ==> offered_challenge(Some(document)) == Some(c)),
{
}

/// Passkeys are found by their identifier, the first one of several, wherever they stand.
pub proof fn passkeys_are_found_by_identifier(passkeys: Seq<Passkey>, id: Seq<u8>, at: int)
    requires
        0 <= at < passkeys.len(),
        passkey_id(passkeys[at]) == id,
        forall|i: int| 0 <= i < at ==> passkey_id(#[trigger] passkeys[i]) != id,
    ensures
        find_passkey(passkeys, id, 0) == Some(passkeys[at]),
{
    lemma_find_passkey_at(passkeys, id, 0, at);
}

proof fn lemma_find_passkey_at(passkeys: Seq<Passkey>, id: Seq<u8>, from: int, at: int)
    requires
        0 <= from <= at < passkeys.len(),
        passkey_id(passkeys[at]) == id,
        forall|i: int| 0 <= i < at ==> passkey_id(#[trigger] passkeys[i]) != id,
    ensures
        find_passkey(passkeys, id, from) == Some(passkeys[at]),
    decreases at - from,
{
    if from < at {
        lemma_find_passkey_at(passkeys, id, from + 1, at);
    }
}

proof fn lemma_find_none(passkeys: Seq<Passkey>, id: Seq<u8>, from: int)
    requires
        0 <= from,
        forall|i: int| 0 <= i < passkeys.len() ==> passkey_id(#[trigger] passkeys[i]) != id,
    ensures
        find_passkey(passkeys, id, from) is None,
    decreases passkeys.len() - from,
{
    if from < passkeys.len() {
        lemma_find_none(passkeys, id, from + 1);
    }
}

/// Whoever signed in is told so; with the identifier of the passkey in base64url, exactly where a passkey of
/// that identifier is known.
pub proof fn who_signed_in_is_told_so(passkeys: Seq<Passkey>, id: Seq<u8>)
    ensures
        member(signed_in(passkeys, id), "ok"@) == Some(JsonView::Bool(true)),
        (exists|i: int| 0 <= i < passkeys.len() && passkey_id(#[trigger] passkeys[i]) == id) ==> member(
            signed_in(passkeys, id),
            "cred_id"@,
        ) == Some(JsonView::Text(base64url(id))),
        (forall|i: int| 0 <= i < passkeys.len() ==> passkey_id(#[trigger] passkeys[i]) != id) ==> member(
            signed_in(passkeys, id),
            "cred_id"@,
        ) is None,
{
    reveal_strlit("ok");
    reveal_strlit("cred_id");
    assert("ok"@.len() != "cred_id"@.len());
    let none = Seq::<(Seq<char>, JsonView)>::empty();
    let yes = JsonView::Bool(true);
    match find_passkey(passkeys, id, 0) {
        Some(_) => {
            let members = signed_in(passkeys, id)->Object_0;
            the_first_member_counts(none, "cred_id"@, members[0].1, members.skip(1));
            assert(members =~= none + seq![("cred_id"@, members[0].1)] + members.skip(1));
            the_first_member_counts(members.take(1), "ok"@, yes, none);
            assert(members =~= members.take(1) + seq![("ok"@, yes)] + none);
            if forall|i: int| 0 <= i < passkeys.len() ==> passkey_id(#[trigger] passkeys[i]) != id {
                lemma_find_none(passkeys, id, 0);
            }
        },
        None => {
            let members = signed_in(passkeys, id)->Object_0;
            the_first_member_counts(none, "ok"@, yes, none);
            assert(members =~= none + seq![("ok"@, yes)] + none);
            the_first_member_counts(members, "cred_id"@, yes, none);
            if exists|i: int| 0 <= i < passkeys.len() && passkey_id(#[trigger] passkeys[i]) == id {
                let i = choose|i: int| 0 <= i < passkeys.len() && passkey_id(#[trigger] passkeys[i]) == id;
                lemma_found_somewhere(passkeys, id, 0, i);
            }
        },
    }
}

proof fn lemma_found_somewhere(passkeys: Seq<Passkey>, id: Seq<u8>, from: int, at: int)
    requires
        0 <= from <= at < passkeys.len(),
        passkey_id(passkeys[at]) == id,
    ensures
        find_passkey(passkeys, id, from) is Some,
    decreases at - from,
{
    if from < at && passkey_id(passkeys[from]) != id {
        lemma_found_somewhere(passkeys, id, from + 1, at);
    }
}

/// A document with one member holds it under its name.
pub proof fn a_single_member_is_found(name: Seq<char>, value: JsonView)
    ensures
        member(one_member(name, value), name) == Some(value),
{
    let none = Seq::<(Seq<char>, JsonView)>::empty();
    the_first_member_counts(none, name, value, none);
    assert(seq![(name, value)] =~= none + seq![(name, value)] + none);
}

/// Lines are loaded one by one: a line adds the passkey that it stands for, with white space around it or
/// without; and a line that stands for none takes nothing from the others.
pub proof fn lines_are_loaded_one_by_one(a: Seq<Seq<char>>, line: Seq<char>, b: Seq<Seq<char>>)
    ensures
        passkeys_in(a + b) == passkeys_in(a) + passkeys_in(b),
        trimmed(line).len() > 0 ==> (parsed_passkey(trimmed(line)) matches Some(passkey) ==> passkeys_in(
            a + seq![line] + b,
        ) == passkeys_in(a) + seq![passkey] + passkeys_in(b)),
        trimmed(line).len() == 0 || parsed_passkey(trimmed(line)) is None ==> passkeys_in(a + seq![line] + b)
            == passkeys_in(a) + passkeys_in(b),
{
    lemma_passkeys_concat(a, b);
    lemma_passkeys_concat(a + seq![line], b);
    lemma_passkeys_concat(a, seq![line]);
    let one = seq![line];
    assert(one.drop_last() =~= Seq::empty());
    assert(passkeys_in(one.drop_last()) =~= Seq::empty());
    if trimmed(line).len() == 0 || parsed_passkey(trimmed(line)) is None {
        assert(passkeys_in(one) =~= Seq::empty());
        assert(passkeys_in(a) + passkeys_in(one) =~= passkeys_in(a));
    } else {
        assert(passkeys_in(one) =~= seq![parsed_passkey(trimmed(line))->0]);
    }
}

proof fn lemma_passkeys_concat(a: Seq<Seq<char>>, b: Seq<Seq<char>>)
    ensures
        passkeys_in(a + b) == passkeys_in(a) + passkeys_in(b),
    decreases b.len(),
{
    if b.len() == 0 {
        assert(a + b =~= a);
        assert(passkeys_in(a) + passkeys_in(b) =~= passkeys_in(a));
    } else {
        assert((a + b).drop_last() =~= a + b.drop_last());
        assert((a + b).last() == b.last());
        lemma_passkeys_concat(a, b.drop_last());
        assert(passkeys_in(a + b) =~= passkeys_in(a) + passkeys_in(b));
    }
}

/// A key is shown by its kind, with each of its parts in base64url under its own name.
pub proof fn keys_are_shown_part_by_part(shown: AuthedKey, key: KeyView)
    requires
        shown.shows(key),
    ensures
        key matches KeyView::Ec { curve, x, y } ==> shown is EC_EC2 && shown->EC_EC2_curve@ == curve && shown->EC_EC2_x@
            == base64url(x) && shown->y@ == base64url(y),
        key matches KeyView::Okp { curve, x } ==> shown is EC_OKP && shown->EC_OKP_curve@ == curve && shown->EC_OKP_x@
            == base64url(x),
        key matches KeyView::Rsa { n, e } ==> shown is RSA && shown->n@ == base64url(n) && shown->e@ == base64url(e),
{
}

/// Whatever is under way is found under its own challenge.
pub proof fn what_is_under_way_is_found_by_its_challenge(state: AppState, challenge: Seq<char>)
    requires
        state.is_filed(),
    ensures
        state.pending_reg@.contains_key(challenge) ==> registration_challenge(state.pending_reg@[challenge]) == Some(
            challenge,
        ),
        state.pending_auth@.contains_key(challenge) ==> authentication_challenge(state.pending_auth@[challenge])
            == Some(challenge),
{
}

/// A registration is good for one answer: whatever came of the first, a second one with the same challenge
/// is turned away and adds nothing. A good first one adds its passkey behind the others, and the reply says
/// that all is well exactly then.
pub proof fn a_registration_is_answered_once(
    before: AppState,
    between: AppState,
    after: AppState,
    first: RegisterPublicKeyCredential,
    second: RegisterPublicKeyCredential,
    reply: RegisterReply,
    again: RegisterReply,
)
    requires
        before.takes_registration(between, first, reply),
        between.takes_registration(after, second, again),
        challenge_in(registration_data(first)) is Some,
        challenge_in(registration_data(second)) == challenge_in(registration_data(first)),
    ensures
        again.status == 400 && again.keep is None,
        after.credentials@ == between.credentials@,
        after.pending_reg@ == between.pending_reg@,
        before.credentials@.is_prefix_of(between.credentials@),
        between.credentials@.len() == before.credentials@.len() + (if reply.status == 200 {
            1int
        } else {
            0int
        }),
        member(reply.body@, "ok"@) == Some(JsonView::Bool(reply.status == 200)),
        member(again.body@, "ok"@) == Some(JsonView::Bool(false)),
{
    a_single_member_is_found("ok"@, JsonView::Bool(reply.status == 200));
    a_single_member_is_found("ok"@, JsonView::Bool(false));
    assert(before.credentials@.is_prefix_of(between.credentials@)) by {
        assert(between.credentials@.subrange(0, before.credentials@.len() as int) =~= before.credentials@);
    }
}

/// An authentication is good for one answer: a second one with the same challenge is turned away. Who was
/// signed in is told so, and no one else is.
pub proof fn an_authentication_is_answered_once(
    before: AppState,
    between: AppState,
    after: AppState,
    first: PublicKeyCredential,
    second: PublicKeyCredential,
    reply: AuthReply,
    again: AuthReply,
)
    requires
        before.takes_authentication(between, first, reply),
        between.takes_authentication(after, second, again),
        challenge_in(authentication_data(first)) is Some,
        challenge_in(authentication_data(second)) == challenge_in(authentication_data(first)),
    ensures
        again.status == 400,
        member(again.body@, "ok"@) == Some(JsonView::Bool(false)),
        member(reply.body@, "ok"@) == Some(JsonView::Bool(reply.status == 200)),
        reply.status == 200 ==> before.pending_auth@.contains_key(challenge_in(authentication_data(first))->0)
            && authenticated_id(
            before.webauthn,
            first,
            before.pending_auth@[challenge_in(authentication_data(first))->0],
        ) is Some,
        after.credentials@ == before.credentials@,
{
    a_single_member_is_found("ok"@, JsonView::Bool(false));
    let challenge = challenge_in(authentication_data(first))->0;
    let found = authenticated_id(before.webauthn, first, before.pending_auth@[challenge]);
    if found is Some {
        who_signed_in_is_told_so(before.credentials@, found->0);
    }
}

} // verus!
