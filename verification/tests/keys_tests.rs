use hbbs::keys::{
    generate_key_pair, get_server_sk, keep_drawing, key_from_file_contents, pk_text_usable, with_generated_key,
    KeyFile, SecretKey, ServerKey,
};

const SK64: &str = "AAECAwQFBgcICQoLDA0ODxAREhMUFRYXGBkaGxwdHh8gISIjJCUmJygpKissLS4vMDEyMzQ1Njc4OTo7PD0+Pw==";
const PK32: &str = "ICEiIyQlJicoKSorLC0uLzAxMjM0NTY3ODk6Ozw9Pj8=";

#[test]
fn key_file_with_secret_key() {
    match key_from_file_contents(&format!("  {}\n", SK64)) {
        KeyFile::Valid { pk, sk } => {
            assert_eq!(pk, PK32);
            assert_eq!(sk.as_bytes(), &(0u8..64).collect::<Vec<u8>>());
            assert_eq!(sk.to_text(), SK64);
        }
        KeyFile::Malformed => panic!("expected a valid key"),
    }
}

#[test]
fn malformed_key_files() {
    assert!(matches!(key_from_file_contents(""), KeyFile::Malformed));
    assert!(matches!(key_from_file_contents("not base64!"), KeyFile::Malformed));
    // the base64 of 32 bytes is too short for a secret key
    assert!(matches!(key_from_file_contents(PK32), KeyFile::Malformed));
}

#[test]
fn server_key_from_secret_key_text() {
    match get_server_sk(SK64) {
        ServerKey::Ready { key, sk } => {
            assert_eq!(key, PK32);
            assert_eq!(sk.unwrap().as_bytes(), &(0u8..64).collect::<Vec<u8>>());
        }
        _ => panic!("expected a ready key"),
    }
}

#[test]
fn server_key_plain_text() {
    match get_server_sk("mykey") {
        ServerKey::Ready { key, sk } => {
            assert_eq!(key, "mykey");
            assert!(sk.is_none());
        }
        _ => panic!("expected a ready key"),
    }
}

#[test]
fn server_key_generated() {
    assert!(matches!(get_server_sk(""), ServerKey::Generate { keep_empty: true }));
    assert!(matches!(get_server_sk("-"), ServerKey::Generate { keep_empty: false }));
    assert!(matches!(get_server_sk("_"), ServerKey::Generate { keep_empty: false }));
    let (key, sk) = with_generated_key(false, "PUB".to_string(), None);
    assert_eq!(key, "PUB");
    assert!(sk.is_none());
    let (key, _) = with_generated_key(true, "PUB".to_string(), None);
    assert_eq!(key, "");
}

#[test]
fn public_key_text_rules() {
    assert!(pk_text_usable(&"abc+def=".to_string()));
    assert!(!pk_text_usable(&"abc/def".to_string()));
    assert!(!pk_text_usable(&"abc:def".to_string()));
}

#[test]
fn fresh_key_pair() {
    let (pk, sk, draws) = generate_key_pair();
    assert_eq!(pk.len(), 44);
    assert_eq!(pk, sk.public_text());
    assert!((1..=301).contains(&draws));
    // an unusable text survives only when every draw was made
    assert!(pk_text_usable(&pk) || draws == 301);
}

#[test]
fn signing_with_a_key() {
    let sk = SecretKey::from_bytes((0u8..64).collect()).unwrap();
    let signed = sk.sign(b"hello");
    assert_eq!(signed.len(), 64 + 5);
    assert_eq!(&signed[64..], b"hello");
    assert!(SecretKey::from_bytes(vec![0; 63]).is_none());
}

#[test]
fn stored_key_reads_back() {
    let (pk, sk, _) = generate_key_pair();
    match key_from_file_contents(&sk.to_text()) {
        KeyFile::Valid { pk: pk2, sk: sk2 } => {
            assert_eq!(pk2, pk);
            assert_eq!(sk2.as_bytes(), sk.as_bytes());
        }
        KeyFile::Malformed => panic!("a stored key must read back"),
    }
}

#[test]
fn drawing_stops_at_a_usable_key_or_the_last_draw() {
    assert!(keep_drawing(1, &"ab/c".to_string()));
    assert!(keep_drawing(300, &"ab:c".to_string()));
    assert!(!keep_drawing(301, &"ab/c".to_string()));
    assert!(!keep_drawing(1, &"abc".to_string()));
}
