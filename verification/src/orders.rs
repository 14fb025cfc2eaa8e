//! Market orders on Kraken's private REST API: the credentials they need, the
//! form body they send and the request signature Kraken checks.
use vstd::prelude::*;
use vstd::string::*;
use vstd::utf8::encode_utf8;
use base64::Engine;
use hmac::Mac;
use sha2::Digest;
use crate::configuration::Settings;
use crate::decimal::{Dec, nat_text, to_text};
use crate::text::u128_text;

verus! {

/// The SHA-256 digest of a byte string.
pub uninterp spec fn sha256_digest(data: Seq<u8>) -> Seq<u8>;

/// The HMAC-SHA-512 tag of `data` under `key`.
pub uninterp spec fn hmac_sha512_tag(key: Seq<u8>, data: Seq<u8>) -> Seq<u8>;

/// What standard, padded Base64 decoding makes of a text: the bytes, or the
/// message of the error that refuses it.
pub uninterp spec fn base64_decoded(text: Seq<char>) -> Result<Seq<u8>, Seq<char>>;

/// The character of the standard Base64 alphabet for a six-bit value.
pub open spec fn base64_digit(v: int) -> char {
    if v < 26 {
        (65 + v) as char
    } else if v < 52 {
        (71 + v) as char
    } else if v < 62 {
        (v - 4) as char
    } else if v == 62 {
        '+'
    } else {
        '/'
    }
}

/// Standard Base64 with `=` padding: each group of three bytes becomes four
/// characters, and a last group of one or two bytes is padded to four.
pub open spec fn base64_standard(data: Seq<u8>) -> Seq<char>
    decreases data.len(),
{
    if data.len() == 0 {
        Seq::empty()
    } else if data.len() == 1 {
        let b0 = data[0] as int;
        seq![base64_digit(b0 / 4), base64_digit((b0 % 4) * 16), '=', '=']
    } else if data.len() == 2 {
        let b0 = data[0] as int;
        let b1 = data[1] as int;
        seq![
            base64_digit(b0 / 4),
            base64_digit((b0 % 4) * 16 + b1 / 16),
            base64_digit((b1 % 16) * 4),
            '=',
        ]
    } else {
        let b0 = data[0] as int;
        let b1 = data[1] as int;
        let b2 = data[2] as int;
        seq![
            base64_digit(b0 / 4),
            base64_digit((b0 % 4) * 16 + b1 / 16),
            base64_digit((b1 % 16) * 4 + b2 / 64),
            base64_digit(b2 % 64),
        ] + base64_standard(data.subrange(3, data.len() as int))
    }
}

/// Padded Base64 is four characters for every started group of three bytes.
pub proof fn lemma_base64_standard_len(data: Seq<u8>)
    ensures
        base64_standard(data).len() == 4 * ((data.len() + 2) / 3),
    decreases data.len(),
{
    if data.len() >= 3 {
        lemma_base64_standard_len(data.subrange(3, data.len() as int));
    }
}

#[verifier::external_type_specification]
#[verifier::external_body]
pub struct ExInvalidLength(hmac::digest::InvalidLength);

/// `sha2::Sha256::digest`: the contract claims the result is `sha256_digest`
/// of the input, 32 bytes long.
#[verifier::external_body]
fn sha256(data: &[u8]) -> (r: Vec<u8>)
    ensures
        r@ == sha256_digest(data@),
        r@.len() == 32,
{
    sha2::Sha256::digest(data).to_vec()
}

/// `hmac::Hmac::<Sha512>::new_from_slice`, `update` and `finalize`: the
/// contract claims that a key of any length is accepted (HMAC hashes or pads
/// the key) and that the tag is `hmac_sha512_tag` of key and data, 64 bytes.
#[verifier::external_body]
fn hmac_sha512(key: &[u8], data: &[u8]) -> (r: Result<Vec<u8>, hmac::digest::InvalidLength>)
    ensures
        r is Ok,
        r matches Ok(tag) ==> tag@ == hmac_sha512_tag(key@, data@) && tag@.len() == 64,
{
    let mut mac = hmac::Hmac::<sha2::Sha512>::new_from_slice(key)?;
    mac.update(data);
    Ok(mac.finalize().into_bytes().to_vec())
}

/// `base64::engine::general_purpose::STANDARD.decode`: the contract claims
/// the result is `base64_decoded` of the text, the error taken by its
/// `Display` message.
#[verifier::external_body]
fn base64_decode(text: &str) -> (r: Result<Vec<u8>, String>)
    ensures
        match base64_decoded(text@) {
            Ok(bytes) => r matches Ok(v) && v@ == bytes,
            Err(msg) => r matches Err(e) && e@ == msg,
        },
{
    match base64::engine::general_purpose::STANDARD.decode(text) {
        Ok(bytes) => Ok(bytes),
        Err(e) => Err(e.to_string()),
    }
}

/// `base64::engine::general_purpose::STANDARD.encode`: the contract claims
/// the text is `base64_standard` of the bytes (standard alphabet, `=`
/// padding).  The crate panics only where the encoded length overflows, which
/// the bound on the input rules out.
#[verifier::external_body]
fn base64_encode(data: &[u8]) -> (r: String)
    requires
        data@.len() <= isize::MAX,
    ensures
        r@ == base64_standard(data@),
{
    base64::engine::general_purpose::STANDARD.encode(data)
}

/// Why an order could not be prepared.
#[derive(Clone, Debug, PartialEq, Eq)]
pub enum OrderError {
    /// Live trading without an API key.
    MissingApiKey,
    /// Live trading without an API secret.
    MissingApiSecret,
    /// The API secret is not standard Base64; the decoder's message.
    InvalidSecret(String),
    /// The HMAC refused the decoded secret as a key.
    InvalidKeyLength,
}

impl OrderError {
    /// The message of the error.
    pub fn message(&self) -> (r: String)
        ensures
            match self {
                OrderError::MissingApiKey => r@ == "KRAKEN_API_KEY missing"@,
                OrderError::MissingApiSecret => r@ == "KRAKEN_API_SECRET missing"@,
                OrderError::InvalidSecret(m) => r@ == m@,
                OrderError::InvalidKeyLength => r@ == "Invalid Length"@,
            },
    {
        match self {
            OrderError::MissingApiKey => "KRAKEN_API_KEY missing".to_owned(),
            OrderError::MissingApiSecret => "KRAKEN_API_SECRET missing".to_owned(),
            OrderError::InvalidSecret(m) => m.clone(),
            OrderError::InvalidKeyLength => "Invalid Length".to_owned(),
        }
    }
}

/// The API key and secret for a live order.
#[derive(Clone, Debug)]
pub struct Credentials {
    pub api_key: String,
    pub api_secret: String,
}

/// The account balance the agent trades against: a fixed 10000 in every mode
/// (no balance is fetched from the exchange).
pub fn account_balance(settings: &Settings) -> (r: Dec)
    ensures
        r == Dec::spec_whole(10000),
{
    if settings.dry_run {
        return Dec::from_u64(10000);
    }
    Dec::from_u64(10000)
}

/// The credentials an order needs: none in dry-run mode (no order is sent);
/// otherwise both key and secret, the key being checked first.
pub fn order_credentials(settings: &Settings) -> (r: Result<Option<Credentials>, OrderError>)
    ensures
        settings.dry_run ==> r == Ok::<Option<Credentials>, OrderError>(None),
        !settings.dry_run ==> match (settings.api_key, settings.api_secret) {
            (None, _) => r == Err::<Option<Credentials>, OrderError>(OrderError::MissingApiKey),
            (Some(_), None) => r == Err::<Option<Credentials>, OrderError>(
                OrderError::MissingApiSecret,
            ),
            (Some(key), Some(secret)) => r matches Ok(Some(c)) && c.api_key@ == key@
                && c.api_secret@ == secret@,
        },
{
    if settings.dry_run {
        return Ok(None);
    }
    let api_key = match &settings.api_key {
        Some(k) => k.clone(),
        None => return Err(OrderError::MissingApiKey),
    };
    let api_secret = match &settings.api_secret {
        Some(s) => s.clone(),
        None => return Err(OrderError::MissingApiSecret),
    };
    Ok(Some(Credentials { api_key, api_secret }))
}

/// The URL path of Kraken's order endpoint.
pub open spec fn add_order_path() -> Seq<char> {
    "/0/private/AddOrder"@
}

/// The form body of a market order.
pub open spec fn market_order_body(nonce: u128, side: Seq<char>, pair: Seq<char>, volume: Dec) -> Seq<
    char,
> {
    "nonce="@ + nat_text(nonce as nat) + "&ordertype=market&type="@ + side + "&pair="@ + pair
        + "&volume="@ + volume.text()
}

/// The form body of a market order names the order's side in its `type`
/// field: right after `nonce=<nonce>&ordertype=market&type=` comes the side,
/// then `&pair=`.
pub proof fn law_order_body_type_is_side(nonce: u128, side: Seq<char>, pair: Seq<char>, volume: Dec)
    ensures
        ({
            let body = market_order_body(nonce, side, pair, volume);
            let head = "nonce="@ + nat_text(nonce as nat) + "&ordertype=market&type="@;
            let k = head.len() as int;
            &&& body.subrange(0, k) == head
            &&& body.subrange(k, k + side.len()) == side
            &&& body.subrange(k + side.len(), k + side.len() + 6) == "&pair="@
        }),
{
    reveal_strlit("&pair=");
    let body = market_order_body(nonce, side, pair, volume);
    let head = "nonce="@ + nat_text(nonce as nat) + "&ordertype=market&type="@;
    let tail = "&pair="@ + pair + "&volume="@ + volume.text();
    let k = head.len() as int;
    assert(body =~= head + side + tail);
    assert(body.subrange(0, k) =~= head);
    assert(body.subrange(k, k + side.len()) =~= side);
    assert(body.subrange(k + side.len(), k + side.len() + 6) =~= "&pair="@);
}

/// The bytes Kraken signs: the URL path, then the SHA-256 digest of the nonce
/// followed by the form body (texts taken as UTF-8).
pub open spec fn signed_message(path: Seq<char>, nonce: u128, post_data: Seq<char>) -> Seq<u8> {
    encode_utf8(path) + sha256_digest(encode_utf8(nat_text(nonce as nat) + post_data))
}

/// Kraken's `API-Sign` header for a request, or the decoder's message where
/// the secret is not Base64.
pub open spec fn kraken_signature_text(
    path: Seq<char>,
    nonce: u128,
    post_data: Seq<char>,
    secret_b64: Seq<char>,
) -> Result<Seq<char>, Seq<char>> {
    match base64_decoded(secret_b64) {
        Ok(secret) => Ok(
            base64_standard(hmac_sha512_tag(secret, signed_message(path, nonce, post_data))),
        ),
        Err(msg) => Err(msg),
    }
}

/// Kraken's `API-Sign` header: the Base64 HMAC-SHA-512, keyed by the decoded
/// secret, of the path followed by SHA-256(nonce ++ form body), always 88
/// characters.  A secret that is not Base64 is refused with the decoder's
/// message.
pub fn kraken_signature(path: &str, nonce: u128, post_data: &str, secret_b64: &str) -> (r: Result<
    String,
    OrderError,
>)
    ensures
        match kraken_signature_text(path@, nonce, post_data@, secret_b64@) {
            Ok(sig) => r matches Ok(s) && s@ == sig,
            Err(msg) => r matches Err(OrderError::InvalidSecret(m)) && m@ == msg,
        },
        r matches Ok(s) ==> s@.len() == 88,
        r matches Ok(s) ==> (base64_decoded(secret_b64@) matches Ok(key) && s@ == base64_standard(
            hmac_sha512_tag(
                key,
                encode_utf8(path@) + sha256_digest(encode_utf8(nat_text(nonce as nat) + post_data@)),
            ),
        )),
{
    let mut message = u128_text(nonce);
    message.append(post_data);
    let hash = sha256(message.as_str().as_bytes());
    let mut data = path.as_bytes_vec();
    let ghost path_bytes = data@;
    let mut i: usize = 0;
    while i < hash.len()
        invariant
            i <= hash@.len(),
            data@ == path_bytes + hash@.subrange(0, i as int),
        decreases hash@.len() - i,
    {
        data.push(hash[i]);
        i = i + 1;
        assert(data@ =~= path_bytes + hash@.subrange(0, i as int));
    }
    assert(hash@.subrange(0, hash@.len() as int) =~= hash@);
    let secret = match base64_decode(secret_b64) {
        Ok(bytes) => bytes,
        Err(msg) => return Err(OrderError::InvalidSecret(msg)),
    };
    let tag = match hmac_sha512(secret.as_slice(), data.as_slice()) {
        Ok(t) => t,
        Err(_) => return Err(OrderError::InvalidKeyLength),
    };
    proof {
        lemma_base64_standard_len(tag@);
    }
    Ok(base64_encode(tag.as_slice()))
}

/// A signed market order, ready to be posted.
#[derive(Clone, Debug)]
pub struct SignedOrder {
    /// Where to post it.
    pub url: String,
    /// The `API-Key` header.
    pub api_key: String,
    /// The `API-Sign` header.
    pub signature: String,
    /// The form body.
    pub body: String,
}

/// The request for a market order of `volume` units of `pair` on `side`
/// (`buy` or `sell`), under `nonce`: posted to the REST base URL followed by
/// the order path, with the form body and its signature.
pub fn signed_market_order(
    settings: &Settings,
    credentials: &Credentials,
    pair: &str,
    side: &str,
    volume: Dec,
    nonce: u128,
) -> (r: Result<SignedOrder, OrderError>)
    ensures
        match kraken_signature_text(
            add_order_path(),
            nonce,
            market_order_body(nonce, side@, pair@, volume),
            credentials.api_secret@,
        ) {
            Ok(sig) => r matches Ok(o) && o.signature@ == sig && o.body@ == market_order_body(
                nonce,
                side@,
                pair@,
                volume,
            ) && o.url@ == settings.rest_base_url@ + add_order_path() && o.api_key@
                == credentials.api_key@,
            Err(msg) => r matches Err(OrderError::InvalidSecret(m)) && m@ == msg,
        },
        r matches Ok(o) ==> o.body@ == "nonce="@ + nat_text(nonce as nat)
            + "&ordertype=market&type="@ + side@ + "&pair="@ + pair@ + "&volume="@ + volume.text(),
        r matches Ok(o) ==> o.url@ == settings.rest_base_url@ + "/0/private/AddOrder"@
            && o.api_key@ == credentials.api_key@,
        r matches Ok(o) ==> (base64_decoded(credentials.api_secret@) matches Ok(key)
            && o.signature@ == base64_standard(
            hmac_sha512_tag(
                key,
                encode_utf8("/0/private/AddOrder"@) + sha256_digest(
                    encode_utf8(nat_text(nonce as nat) + o.body@),
                ),
            ),
        )),
{
    let mut body = "nonce=".to_owned();
    let nonce_text = u128_text(nonce);
    body.append(nonce_text.as_str());
    body.append("&ordertype=market&type=");
    body.append(side);
    body.append("&pair=");
    body.append(pair);
    body.append("&volume=");
    let volume_text = to_text(volume);
    body.append(volume_text.as_str());
    let path = "/0/private/AddOrder";
    let signature = match kraken_signature(path, nonce, body.as_str(), credentials.api_secret.as_str()) {
        Ok(s) => s,
        Err(e) => return Err(e),
    };
    let mut url = settings.rest_base_url.clone();
    url.append(path);
    Ok(SignedOrder { url, api_key: credentials.api_key.clone(), signature, body })
}

} // verus!
