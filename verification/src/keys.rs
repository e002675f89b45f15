//! The server's signing key: where it comes from (a key argument, a key
//! file, or a fresh key pair), and how peers' public keys are signed with it.
use vstd::prelude::*;
use crate::text::{has_char, spec_trim, trim_text, is_white_space, lemma_trim_no_white_space};

verus! {

/// Length of an ed25519 secret key in sodiumoxide: the seed followed by
/// the public key.
pub const SECRETKEYBYTES: usize = 64;

/// Length of an ed25519 public key.
pub const PUBLICKEYBYTES: usize = 32;

/// Standard base64 (with padding) of some bytes, as
/// `base64::encode` produces it.
pub uninterp spec fn spec_base64_encode(data: Seq<u8>) -> Seq<char>;

/// The bytes that standard base64 text decodes to, as `base64::decode`
/// returns them, or `None` when the text is not valid base64.
pub uninterp spec fn spec_base64_decode(text: Seq<char>) -> Option<Seq<u8>>;

/// The signed message (signature followed by the message) that
/// `sodiumoxide::crypto::sign::sign` makes of `msg` with the secret key `sk`.
pub uninterp spec fn spec_sign(msg: Seq<u8>, sk: Seq<u8>) -> Seq<u8>;

/// A character of the standard base64 alphabet, or the padding `=`.
pub open spec fn is_base64_char(c: char) -> bool {
    ('A' <= c <= 'Z') || ('a' <= c <= 'z') || ('0' <= c <= '9') || c == '+' || c == '/' || c == '='
}

/// `base64::encode` (standard alphabet, padded). Its text is made of the
/// standard alphabet and padding, and `base64::decode` gives the bytes
/// back.
#[verifier::external_body]
fn base64_encode(data: &[u8]) -> (r: String)
    ensures
        r@ == spec_base64_encode(data@),
        forall|i: int| 0 <= i < r@.len() ==> is_base64_char(#[trigger] r@[i]),
        spec_base64_decode(r@) == Some(data@),
{
    #[allow(deprecated)]
    base64::encode(data)
}

/// `base64::decode` (standard alphabet); the error is dropped.
#[verifier::external_body]
fn base64_decode(text: &str) -> (r: Option<Vec<u8>>)
    ensures
        r is Some <==> spec_base64_decode(text@) is Some,
        r matches Some(v) ==> v@ == spec_base64_decode(text@)->0,
{
    #[allow(deprecated)]
    base64::decode(text).ok()
}

/// `sodiumoxide::crypto::sign::gen_keypair`, with both keys as bytes. The
/// keys are random; the contract states their lengths, which are the sizes
/// of sodiumoxide's key arrays, and that the secret key ends with the
/// public key (libsodium stores the seed, then the public key).
#[verifier::external_body]
fn gen_keypair() -> (r: (Vec<u8>, SecretKey))
    ensures
        r.0@.len() == PUBLICKEYBYTES,
        r.1@.len() == SECRETKEYBYTES,
        r.1@.subrange(32, 64) == r.0@,
{
    let (pk, sk) = sodiumoxide::crypto::sign::gen_keypair();
    (pk.0.to_vec(), SecretKey { bytes: sk.0.to_vec() })
}

/// `sodiumoxide::crypto::sign::sign` of `msg` under a 64-byte secret key.
#[verifier::external_body]
fn sign_bytes(msg: &[u8], sk: &[u8]) -> (r: Vec<u8>)
    requires
        sk@.len() == SECRETKEYBYTES,
    ensures
        r@ == spec_sign(msg@, sk@),
{
    let mut key = [0u8; 64];
    key.copy_from_slice(sk);
    sodiumoxide::crypto::sign::sign(msg, &sodiumoxide::crypto::sign::SecretKey(key))
}

/// An ed25519 secret key of the server.
pub struct SecretKey {
    bytes: Vec<u8>,
}

impl View for SecretKey {
    type V = Seq<u8>;

    closed spec fn view(&self) -> Seq<u8> {
        self.bytes@
    }
}

impl SecretKey {
    #[verifier::type_invariant]
    spec fn wf(self) -> bool {
        self.bytes@.len() == SECRETKEYBYTES
    }

    /// A secret key from its bytes; `None` unless there are exactly 64.
    pub fn from_bytes(bytes: Vec<u8>) -> (r: Option<SecretKey>)
        ensures
            r is Some <==> bytes@.len() == SECRETKEYBYTES,
            r matches Some(k) ==> k@ == bytes@,
    {
        if bytes.len() == SECRETKEYBYTES {
            Some(SecretKey { bytes })
        } else {
            None
        }
    }

    pub fn as_bytes(&self) -> (r: &Vec<u8>)
        ensures
            r@ == self@,
            r@.len() == SECRETKEYBYTES,
    {
        proof {
            use_type_invariant(self);
        }
        &self.bytes
    }

    /// The public half of the key, base64-encoded: the text peers are given
    /// as the server's key.
    pub fn public_text(&self) -> (r: String)
        ensures
            r@ == spec_base64_encode(self@.subrange(32, 64)),
    {
        proof {
            use_type_invariant(self);
        }
        let mut copy = self.bytes.clone();
        let half = copy.split_off(32);
        assert(half@ == self@.subrange(32, 64));
        base64_encode(half.as_slice())
    }

    /// The secret key in base64, as it is stored in the key file; read
    /// back as a key file, the text gives this key again.
    pub fn to_text(&self) -> (r: String)
        ensures
            r@ == spec_base64_encode(self@),
            spec_key_file_bytes(r@) == self@,
    {
        let r = base64_encode(self.bytes.as_slice());
        proof {
            assert forall|i: int| 0 <= i < r@.len() implies !is_white_space(r@[i]) by {
                assert(is_base64_char(r@[i]));
            }
            lemma_trim_no_white_space(r@);
        }
        r
    }

    /// Signs a message with this key.
    pub fn sign(&self, msg: &[u8]) -> (r: Vec<u8>)
        ensures
            r@ == spec_sign(msg@, self@),
    {
        proof {
            use_type_invariant(self);
        }
        sign_bytes(msg, self.bytes.as_slice())
    }
}

/// What a key file holds: a usable secret key, or something else, which
/// the server refuses to start with.
pub enum KeyFile {
    Valid { pk: String, sk: SecretKey },
    Malformed,
}

/// The bytes a key file's text stands for: its trimmed text decoded as
/// base64, or nothing when that fails.
pub open spec fn spec_key_file_bytes(contents: Seq<char>) -> Seq<u8> {
    match spec_base64_decode(spec_trim(contents)) {
        Some(b) => b,
        None => Seq::empty(),
    }
}

/// Reads a key file's text: the trimmed text must be the base64 of a
/// 64-byte secret key; the public key text is the base64 of its second half.
pub fn key_from_file_contents(contents: &str) -> (r: KeyFile)
    ensures
        spec_key_file_bytes(contents@).len() == SECRETKEYBYTES <==> r is Valid,
        r matches KeyFile::Valid { pk, sk } ==> {
            &&& sk@ == spec_key_file_bytes(contents@)
            &&& pk@ == spec_base64_encode(sk@.subrange(32, 64))
        },
{
    let trimmed = trim_text(contents);
    let bytes = match base64_decode(trimmed.as_str()) {
        Some(b) => b,
        None => Vec::new(),
    };
    match SecretKey::from_bytes(bytes) {
        Some(sk) => {
            let pk = sk.public_text();
            KeyFile::Valid { pk, sk }
        },
        None => KeyFile::Malformed,
    }
}

/// A public key text is kept when it holds neither `/` nor `:`.
pub open spec fn spec_pk_text_usable(pk: Seq<char>) -> bool {
    !pk.contains('/') && !pk.contains(':')
}

pub fn pk_text_usable(pk: &String) -> (r: bool)
    ensures
        r == spec_pk_text_usable(pk@),
{
    !has_char(pk.as_str(), '/') && !has_char(pk.as_str(), ':')
}

/// How many times a fresh key pair is drawn again when its public key text
/// holds `/` or `:`.
pub const KEY_RETRIES: usize = 300;

/// Whether to draw another key pair after `draws` draws whose last public
/// key text is `text`: while that text is unusable and fewer than
/// `KEY_RETRIES + 1` pairs were drawn.
pub fn keep_drawing(draws: usize, text: &String) -> (r: bool)
    ensures
        r == (draws <= KEY_RETRIES && !spec_pk_text_usable(text@)),
{
    draws <= KEY_RETRIES && !pk_text_usable(text)
}

/// Draws a key pair, drawing again (as `keep_drawing` decides) up to
/// `KEY_RETRIES` times while the public key text holds `/` or `:`.
/// Returns the public key text, which is that of the returned secret key,
/// the secret key, and the count of draws the loop kept. The keys are
/// random, so the contract cannot tie that count to the draws made: it
/// states that the text is usable unless the count reached
/// `KEY_RETRIES + 1`.
pub fn generate_key_pair() -> (r: (String, SecretKey, usize))
    ensures
        r.0@ == spec_base64_encode(r.1@.subrange(32, 64)),
        1 <= r.2 <= KEY_RETRIES + 1,
        spec_pk_text_usable(r.0@) || r.2 == KEY_RETRIES + 1,
        r.2 < KEY_RETRIES + 1 ==> spec_pk_text_usable(r.0@),
{
    let (pk, sk) = gen_keypair();
    let mut text = base64_encode(pk.as_slice());
    let mut secret = sk;
    let mut draws: usize = 1;
    while keep_drawing(draws, &text)
        invariant
            1 <= draws <= KEY_RETRIES + 1,
            text@ == spec_base64_encode(secret@.subrange(32, 64)),
        decreases KEY_RETRIES + 1 - draws,
    {
        let (pk2, sk2) = gen_keypair();
        text = base64_encode(pk2.as_slice());
        secret = sk2;
        draws = draws + 1;
    }
    (text, secret, draws)
}

/// Whether a key argument asks for the server's own key pair: empty, `-`
/// or `_`.
pub open spec fn spec_wants_generated(key: Seq<char>) -> bool {
    key.len() == 0 || key == seq!['-'] || key == seq!['_']
}

/// The key the server runs with, or the request to use the key file
/// (`keep_empty`: the key text stays empty and only the secret key is used).
pub enum ServerKey {
    Ready { key: String, sk: Option<SecretKey> },
    Generate { keep_empty: bool },
}

/// A key argument after decoding: the base64 of a 64-byte secret key
/// becomes that key, with the base64 of its public half as the key text;
/// any other text stays as it is, without a secret key.
pub open spec fn spec_decoded_key(key: Seq<char>) -> (Seq<char>, Option<Seq<u8>>) {
    match spec_base64_decode(key) {
        Some(b) => if b.len() == SECRETKEYBYTES {
            (spec_base64_encode(b.subrange(32, 64)), Some(b))
        } else {
            (key, None)
        },
        None => (key, None),
    }
}

/// Interprets the server's key argument.
pub fn get_server_sk(key: &str) -> (r: ServerKey)
    ensures
        spec_wants_generated(spec_decoded_key(key@).0) ==> r == (ServerKey::Generate {
            keep_empty: spec_decoded_key(key@).0.len() == 0,
        }),
        !spec_wants_generated(spec_decoded_key(key@).0) ==> (r matches ServerKey::Ready { key: k, sk }
            && k@ == spec_decoded_key(key@).0 && (match sk {
            Some(s) => spec_decoded_key(key@).1 == Some(s@),
            None => spec_decoded_key(key@).1 is None,
        })),
{
    let mut text = key.to_owned();
    let mut out_sk: Option<SecretKey> = None;
    if let Some(bytes) = base64_decode(key) {
        if let Some(sk) = SecretKey::from_bytes(bytes) {
            text = sk.public_text();
            out_sk = Some(sk);
        }
    }
    let n = text.as_str().unicode_len();
    let single_dash_or_underscore = n == 1 && {
        let c = text.as_str().get_char(0);
        c == '-' || c == '_'
    };
    proof {
        if n == 1 {
            assert(text@ == seq![text@[0]]);
        }
    }
    if n == 0 || single_dash_or_underscore {
        ServerKey::Generate { keep_empty: n == 0 }
    } else {
        ServerKey::Ready { key: text, sk: out_sk }
    }
}

/// Completes the server key from the key file's key pair: the key text is
/// the file's public key text unless it is to stay empty.
pub fn with_generated_key(keep_empty: bool, pk: String, sk: Option<SecretKey>) -> (r: (
    String,
    Option<SecretKey>,
))
    ensures
        keep_empty ==> r.0@.len() == 0,
        !keep_empty ==> r.0 == pk,
        r.1 == sk,
{
    if keep_empty {
        (String::new(), sk)
    } else {
        (pk, sk)
    }
}

} // verus!
