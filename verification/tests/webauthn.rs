use base64::engine::general_purpose::URL_SAFE_NO_PAD;
use base64::Engine;
use homepage::json::Json;
use homepage::webauthn::{
    authed_key, build_authed_credential, build_state, client_data_challenge, load_credentials, AppState, AuthedKey,
    KeyParts, OptionsReply,
};
use rustls::pki_types::{PrivateKeyDer, PrivatePkcs8KeyDer};
use rustls::SignatureScheme;
use sha2::{Digest, Sha256};
use webauthn_rs::prelude::{
    CreationChallengeResponse, PublicKeyCredential, RegisterPublicKeyCredential, RequestChallengeResponse,
};

const SITE: &str = "example.com";
const ORIGIN: &str = "https://example.com";
const ID: [u8; 16] = [7, 0, 255, 3, 4, 5, 6, 7, 8, 9, 10, 11, 12, 13, 14, 15];

// The P-256 key of RFC 6979, appendix A.2.5.
const PRIVATE: &str = "C9AFA9D845BA75166B5C215767B1D6934E50C3DB36E89B127B8A622B120F6721";
const POINT_X: &str = "60FED4BA255A9D31C961EB74C6356D68C049B8923B61FA6CE669622E60F29FB6";
const POINT_Y: &str = "7903FE1008B8BC99A41AE9E95628BC64F2F1B20C2D7E9F5177A3C294D4462299";

fn unhex(text: &str) -> Vec<u8> {
    (0..text.len()).step_by(2).map(|i| u8::from_str_radix(&text[i..i + 2], 16).unwrap()).collect()
}

fn b64(bytes: &[u8]) -> String {
    URL_SAFE_NO_PAD.encode(bytes)
}

fn json(text: &str) -> Json {
    Json::parse(text.as_bytes()).unwrap()
}

/// What an authenticator reports about itself: that the user was there and was verified.
fn authenticator_data(flags: u8, counter: u8) -> Vec<u8> {
    let mut data = Sha256::digest(SITE.as_bytes()).to_vec();
    data.push(flags);
    data.extend([0, 0, 0, counter]);
    data
}

fn client_data(kind: &str, challenge: &str) -> String {
    format!(r#"{{"type":"{kind}","challenge":"{challenge}","origin":"{ORIGIN}","crossOrigin":false}}"#)
}

/// An authenticator's answer to a registration, with an attestation of the format `none`.
fn registration(challenge: &str) -> RegisterPublicKeyCredential {
    let mut data = authenticator_data(0x45, 0);
    data.extend([0; 16]);
    data.extend([0, ID.len() as u8]);
    data.extend(ID);
    // The key as a CBOR map: kind, algorithm, curve, and both coordinates.
    data.extend([0xa5, 0x01, 0x02, 0x03, 0x26, 0x20, 0x01, 0x21, 0x58, 0x20]);
    data.extend(unhex(POINT_X));
    data.extend([0x22, 0x58, 0x20]);
    data.extend(unhex(POINT_Y));

    let mut object = vec![0xa3];
    object.extend(b"\x63fmt\x64none\x67attStmt\xa0\x68authData\x58");
    object.push(data.len() as u8);
    object.extend(&data);
    let text = format!(
        r#"{{"id":"{id}","rawId":"{id}","type":"public-key",
            "response":{{"attestationObject":"{object}","clientDataJSON":"{client}"}}}}"#,
        id = b64(&ID),
        object = b64(&object),
        client = b64(client_data("webauthn.create", challenge).as_bytes()),
    );
    serde_json::from_str(&text).unwrap()
}

/// A signature by the private key.
fn sign(message: &[u8]) -> Vec<u8> {
    let mut der = unhex("308187020100301306072A8648CE3D020106082A8648CE3D030107046D306B0201010420");
    der.extend(unhex(PRIVATE));
    der.extend(unhex("A14403420004"));
    der.extend(unhex(POINT_X));
    der.extend(unhex(POINT_Y));
    let key = PrivateKeyDer::Pkcs8(PrivatePkcs8KeyDer::from(der));
    let provider = rustls::crypto::aws_lc_rs::default_provider();
    let key = provider.key_provider.load_private_key(key).unwrap();
    key.choose_scheme(&[SignatureScheme::ECDSA_NISTP256_SHA256]).unwrap().sign(message).unwrap()
}

/// An authenticator's answer to an authentication.
fn authentication(challenge: &str, good: bool) -> PublicKeyCredential {
    let data = authenticator_data(0x05, 1);
    let client = client_data("webauthn.get", challenge);
    let mut message = data.clone();
    message.extend(Sha256::digest(client.as_bytes()));
    if !good {
        message.push(0);
    }
    let text = format!(
        r#"{{"id":"{id}","rawId":"{id}","type":"public-key","response":{{"authenticatorData":"{data}",
            "clientDataJSON":"{client}","signature":"{signature}","userHandle":null}}}}"#,
        id = b64(&ID),
        data = b64(&data),
        client = b64(client.as_bytes()),
        signature = b64(&sign(&message)),
    );
    serde_json::from_str(&text).unwrap()
}

fn creation(reply: OptionsReply<CreationChallengeResponse>) -> serde_json::Value {
    match reply {
        OptionsReply::Options(options) => serde_json::to_value(options).unwrap(),
        OptionsReply::Refused { status, body } => panic!("refused: {status} {body:?}"),
    }
}

fn request(reply: OptionsReply<RequestChallengeResponse>) -> serde_json::Value {
    match reply {
        OptionsReply::Options(options) => serde_json::to_value(options).unwrap(),
        OptionsReply::Refused { status, body } => panic!("refused: {status} {body:?}"),
    }
}

fn challenge_of(options: &serde_json::Value) -> String {
    options["publicKey"]["challenge"].as_str().unwrap().to_string()
}

fn site() -> AppState {
    build_state(SITE, ORIGIN, "").unwrap()
}

fn registered() -> (AppState, String) {
    let mut state = site();
    let challenge = challenge_of(&creation(state.register_options()));
    let reply = state.register_verify(&registration(&challenge));
    assert_eq!((reply.status, reply.body), (200, json(r#"{"ok": true}"#)));
    (state, reply.keep.unwrap())
}

#[test]
fn sites_need_an_origin_of_their_own() {
    assert_eq!(build_state(SITE, "example.com", "").err().unwrap(), "origin URL: relative URL without a base");
    assert_eq!(
        build_state("other.com", ORIGIN, "").err().unwrap(),
        "webauthn builder: The configuration was invalid"
    );
    assert!(build_state("ple.com", ORIGIN, "").is_err());
    assert!(build_state("127.0.0.1", "https://127.0.0.1", "").is_err());
    assert!(build_state(SITE, "https://www.example.com:8443", "").is_ok());
}

#[test]
fn a_passkey_is_registered_and_kept() {
    let mut state = site();
    assert_eq!(state.status(), json(r#"{"registered": false}"#));
    let options = creation(state.register_options());
    assert_eq!(options["publicKey"]["rp"]["id"], SITE);
    assert_eq!(options["publicKey"]["user"]["name"], "user");
    assert_eq!(options["publicKey"]["user"]["displayName"], "User");
    let challenge = challenge_of(&options);
    assert_ne!(challenge_of(&creation(state.register_options())), challenge);
    assert_eq!(state.pending_reg.len(), 2);

    let reply = state.register_verify(&registration(&challenge));
    assert_eq!((reply.status, reply.body), (200, json(r#"{"ok": true}"#)));
    assert_eq!(state.status(), json(r#"{"registered": true}"#));
    assert_eq!(state.pending_reg.len(), 1);

    // A registration is good for one answer.
    let again = state.register_verify(&registration(&challenge));
    assert_eq!((again.status, again.body), (400, json(r#"{"ok": false}"#)));
    assert!(again.keep.is_none());
    assert_eq!(state.credentials.len(), 1);

    // What is kept is loaded, below other lines and between blank ones.
    let line = reply.keep.unwrap();
    assert!(line.starts_with('{') && line.ends_with('}') && !line.contains('\n'));
    let loaded = load_credentials(&format!("{line}\n\nno passkey\n  {line}\t\r\n"));
    assert_eq!(loaded.len(), 2);
    let id: &[u8] = loaded[1].cred_id().as_ref();
    assert_eq!(id, ID);
    assert_eq!(build_state(SITE, ORIGIN, &line).unwrap().credentials.len(), 1);
    assert!(load_credentials("").is_empty());
}

#[test]
fn registrations_can_go_wrong() {
    let mut state = site();
    let challenge = challenge_of(&creation(state.register_options()));
    // The challenge is unknown.
    let reply = state.register_verify(&registration("AAAA"));
    assert_eq!((reply.status, reply.keep.is_none()), (400, true));
    assert_eq!(state.pending_reg.len(), 1);
    // The answer is for another site's user: its origin does not fit.
    let mut foreign = registration(&challenge);
    let data = client_data("webauthn.create", &challenge).replace(ORIGIN, "https://other.example");
    foreign.response.client_data_json = data.into_bytes().into();
    let reply = state.register_verify(&foreign);
    assert_eq!((reply.status, reply.body), (400, json(r#"{"ok": false}"#)));
    assert_eq!((state.pending_reg.len(), state.credentials.len()), (0, 0));
    // The client data is no document.
    foreign.response.client_data_json = b"no".to_vec().into();
    assert_eq!(state.register_verify(&foreign).status, 400);
    // A registration could not be begun.
    let OptionsReply::Refused { status, body } = state.registration_started(None) else {
        panic!("not refused");
    };
    assert_eq!((status, body), (500, Json::Null));
}

#[test]
fn a_passkey_signs_in() {
    let (mut state, _) = registered();
    let options = request(state.auth_options());
    assert_eq!(options["publicKey"]["rpId"], SITE);
    assert_eq!(options["publicKey"]["allowCredentials"][0]["id"], b64(&ID));
    assert_eq!(options["publicKey"]["allowCredentials"].as_array().unwrap().len(), 1);
    let challenge = challenge_of(&options);

    let reply = state.auth_verify(&authentication(&challenge, true));
    assert_eq!(reply.status, 200);
    assert_eq!(reply.body, json(&format!(r#"{{"ok": true, "cred_id": "{}"}}"#, b64(&ID))));
    // An authentication is good for one answer.
    let again = state.auth_verify(&authentication(&challenge, true));
    assert_eq!((again.status, again.body), (400, json(r#"{"ok": false}"#)));

    // A signature over something else is refused.
    let challenge = challenge_of(&request(state.auth_options()));
    let reply = state.auth_verify(&authentication(&challenge, false));
    assert_eq!((reply.status, reply.body), (401, json(r#"{"ok": false}"#)));
    assert_eq!(state.pending_auth.len(), 0);

    // A passkey that is gone meanwhile signs in without a name.
    let challenge = challenge_of(&request(state.auth_options()));
    state.credentials.clear();
    let reply = state.auth_verify(&authentication(&challenge, true));
    assert_eq!((reply.status, reply.body), (200, json(r#"{"ok": true}"#)));
}

#[test]
fn signing_in_needs_a_passkey() {
    let mut state = site();
    let OptionsReply::Refused { status, body } = state.auth_options() else {
        panic!("not refused");
    };
    assert_eq!((status, body), (400, json(r#"{"error": "no_credentials"}"#)));
    let OptionsReply::Refused { status, body } = state.authentication_started(None) else {
        panic!("not refused");
    };
    assert_eq!((status, body), (500, Json::Null));
    assert_eq!(state.auth_verify(&authentication("AAAA", true)).status, 400);
}

#[test]
fn passkeys_are_described() {
    let (state, _) = registered();
    let authed = build_authed_credential(state.credential(&ID.to_vec()).unwrap());
    assert_eq!(authed.cred_id, b64(&ID));
    assert_eq!(authed.algorithm, "ES256");
    let AuthedKey::EC_EC2 { curve, x, y } = authed.key else {
        panic!("another kind of key");
    };
    assert_eq!(curve, "SECP256R1");
    assert_eq!((x, y), (b64(&unhex(POINT_X)), b64(&unhex(POINT_Y))));
    assert!(state.credential(&vec![1]).is_none());
    assert_eq!(state.signed_in_with(&vec![1]), json(r#"{"ok": true}"#));

    let okp = authed_key(KeyParts::Okp { curve: "ED25519".to_string(), x: vec![255, 254] });
    assert!(matches!(okp, AuthedKey::EC_OKP { curve, x } if curve == "ED25519" && x == "__4"));
    let rsa = authed_key(KeyParts::Rsa { n: vec![0], e: vec![1, 0, 1] });
    assert!(matches!(rsa, AuthedKey::RSA { n, e } if n == "AA" && e == "AQAB"));
}

#[test]
fn client_data_names_its_challenge() {
    let read = |text: &[u8]| client_data_challenge(&text.to_vec());
    assert_eq!(read(br#"{"challenge": "abc", "type": "x"}"#).as_deref(), Some("abc"));
    assert_eq!(read(br#"{"challenge": 1}"#), None);
    assert_eq!(read(b"{}"), None);
    assert_eq!(read(b"no"), None);
    assert_eq!(read(b"{\"challenge\": \"\xff\"}"), None);
}
