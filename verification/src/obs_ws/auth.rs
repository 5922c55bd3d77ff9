//! obs-websocket 5 authentication.

use base64::Engine;
use sha2::Digest;
use vstd::prelude::*;
use vstd::utf8::encode_utf8;

use crate::json::{get_in, text_of, Json, JsonNumber, JsonView, ObjectBuilder};
use crate::text::cat;
#[allow(unused_imports)]
use crate::json;

verus! {

/// The SHA-256 digest of some bytes.
pub uninterp spec fn sha256_of(data: Seq<u8>) -> Seq<u8>;

/// Some bytes in the standard base64 alphabet, padded.
pub uninterp spec fn base64_of(data: Seq<u8>) -> Seq<char>;

/// `sha2::Sha256::digest`: the digest depends on the bytes alone and has 32 bytes.
#[verifier::external_body]
fn sha256(data: &[u8]) -> (r: Vec<u8>)
    ensures
        r@ == sha256_of(data@),
        r@.len() == 32,
{
    sha2::Sha256::digest(data).to_vec()
}

/// `base64::engine::general_purpose::STANDARD.encode`: the text depends on the bytes
/// alone. There are four characters for every three bytes begun, and their number has
/// to be a `usize`.
#[verifier::external_body]
fn base64_standard(data: &[u8]) -> (r: String)
    requires
        data@.len() / 3 * 4 + 4 <= usize::MAX,
    ensures
        r@ == base64_of(data@),
{
    base64::engine::general_purpose::STANDARD.encode(data)
}

/// The base64 text of the digest of a text.
pub open spec fn digest_text(s: Seq<char>) -> Seq<char> {
    base64_of(sha256_of(encode_utf8(s)))
}

/// The base64 text of the digest of `s`.
pub fn digest_base64(s: &str) -> (r: String)
    ensures
        r@ == digest_text(s@),
{
    let digest = sha256(s.as_bytes());
    base64_standard(digest.as_slice())
}

/// The answer to a challenge: the digest of the secret and the challenge, where the
/// secret is the digest of the password and the salt.
pub open spec fn auth_text(
    challenge: Seq<char>,
    salt: Seq<char>,
    password: Seq<char>,
) -> Seq<char> {
    digest_text(digest_text(password + salt) + challenge)
}

/// obs-websocket 5 password scheme:
///   secret = base64(sha256(password + salt))
///   auth   = base64(sha256(secret + challenge))
pub fn compute_auth(challenge: &str, salt: &str, password: &str) -> (r: String)
    ensures
        r@ == auth_text(challenge@, salt@, password@),
{
    let secret = digest_base64(cat(password, salt).as_str());
    digest_base64(cat(secret.as_str(), challenge).as_str())
}

/// The password, where there is one.
pub open spec fn password_of(password: Option<&str>) -> Seq<char> {
    match password {
        Some(p) => p@,
        None => Seq::empty(),
    }
}

/// A text member of an object; nothing where there is none.
pub open spec fn field(j: JsonView, key: Seq<char>) -> Seq<char> {
    match json::text_in(json::member_of(j, key)) {
        Some(t) => t,
        None => ""@,
    }
}

/// What goes out as `Identify`: an answer to the challenge where OBS asked for one and
/// there is a password.
pub open spec fn identify_view(auth: JsonView, password: Seq<char>) -> JsonView {
    let rpc = ("rpcVersion"@, JsonView::Number(JsonNumber::Unsigned(1)));
    if password.len() > 0 && auth is Object {
        JsonView::Object(
            seq![
                rpc,
                (
                    "authentication"@,
                    JsonView::Text(
                        auth_text(field(auth, "challenge"@), field(auth, "salt"@), password),
                    ),
                ),
            ],
        )
    } else {
        JsonView::Object(seq![rpc])
    }
}

/// Builds the `Identify` message for what `Hello` asked.
pub fn build_identify(auth: &Json, password: Option<&str>) -> (r: Json)
    ensures
        r@ == identify_view(auth@, password_of(password)),
{
    let plain = ObjectBuilder::new().with_unsigned("rpcVersion", 1);
    let asked: bool = match auth {
        Json::Object(_) => true,
        _ => false,
    };
    assert(asked == (auth@ is Object));
    let password: &str = match password {
        Some(p) => p,
        None => {
            assert(plain@ =~= identify_view(auth@, Seq::empty())->Object_0);
            return plain.build();
        },
    };
    if password.unicode_len() == 0 || !asked {
        assert(plain@ =~= identify_view(auth@, password@)->Object_0);
        return plain.build();
    }
    let challenge: &str = match text_of(auth.get("challenge")) {
        Some(t) => t,
        None => "",
    };
    let salt: &str = match text_of(auth.get("salt")) {
        Some(t) => t,
        None => "",
    };
    let answer = compute_auth(challenge, salt, password);
    let full = plain.with_text("authentication", answer.as_str());
    assert(full@ =~= identify_view(auth@, password@)->Object_0);
    full.build()
}

/// What a `Hello` message asks for.
pub fn hello_challenge<'a>(hello: &'a Json) -> (r: Option<&'a Json>)
    ensures
        json::opt_view(r) == json::member_in(
            json::member_of(hello@, "d"@),
            "authentication"@,
        ),
{
    get_in(hello.get("d"), "authentication")
}

/// Without a password nothing secret is sent, whatever OBS asks.
pub proof fn no_password_no_answer(auth: JsonView)
    ensures
        identify_view(auth, Seq::empty()) == JsonView::Object(
            seq![("rpcVersion"@, JsonView::Number(JsonNumber::Unsigned(1)))],
        ),
{
}

} // verus!
