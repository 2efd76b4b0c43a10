use ascending_login::containers::storage::UserClaim;
use ascending_login::containers::tokens::{
    charset_at, gen_chars, gen_token, secret_apart, Key, RotatableJwtKey, RotatableKey,
    CHARSET_LEN, KEY_LENGTH,
};
use jsonwebtoken::{Algorithm, DecodingKey, Validation};

const CHARSET: &str = "ABCDEFGHIJKLMNOPQRSTUVWXYZabcdefghijklmnopqrstuvwxyz0123456789)(*&^%$#@!~";

fn claim(server_name: &str, uid: i64) -> UserClaim {
    UserClaim { server_name: server_name.to_string(), uid }
}

#[test]
fn charset_has_the_characters_in_order() {
    assert_eq!(CHARSET.len(), CHARSET_LEN);
    for (i, c) in CHARSET.chars().enumerate() {
        assert_eq!(charset_at(i), c);
    }
}

#[test]
fn gen_token_has_the_length_asked_for() {
    for length in [0usize, 1, 32, 64, 200] {
        let token = gen_token(length);
        assert_eq!(token.chars().count(), length);
        assert!(token.chars().all(|c| CHARSET.contains(c)));
    }
    assert_eq!(KEY_LENGTH, 64);
}

#[test]
fn gen_token_does_not_repeat_itself() {
    assert_ne!(gen_token(64), gen_token(64));
}

#[test]
fn from_secrets_refuses_equal_secrets() {
    assert!(RotatableKey::from_secrets("a".to_string(), "a".to_string(), 5).is_none());
    let keys = RotatableKey::from_secrets("a".to_string(), "b".to_string(), 5).unwrap();
    assert_eq!(keys.keys(), ["a", "b"]);
    assert_eq!(keys.active_id(), 0);
    assert_eq!(keys.inactive_id(), 1);
    assert_eq!(keys.active_key(), "a");
    assert_eq!(keys.inactive_key(), "b");
    assert_eq!(keys.last_updated(), 5);
}

#[test]
fn new_keys_differ() {
    let keys = RotatableKey::new(64).unwrap();
    let [first, second] = keys.keys();
    assert_ne!(first, second);
    assert_eq!(first.len(), 64);
    assert_eq!(second.len(), 64);
    assert_eq!(keys.active_id(), 0);
    assert!(RotatableKey::new(0).is_none());
}

#[test]
fn rotate_to_flips_and_replaces_the_newly_active_slot() {
    let mut keys = RotatableKey::from_secrets("a".to_string(), "b".to_string(), 5).unwrap();
    assert!(keys.rotate_to("c".to_string(), 9));
    assert_eq!(keys.keys(), ["a", "c"]);
    assert_eq!(keys.active_id(), 1);
    assert_eq!(keys.active_key(), "c");
    assert_eq!(keys.inactive_key(), "a");
    assert_eq!(keys.last_updated(), 9);
    assert!(keys.rotate_to("d".to_string(), 11));
    assert_eq!(keys.keys(), ["d", "c"]);
    assert_eq!(keys.active_id(), 0);
    assert_eq!(keys.last_updated(), 11);
}

#[test]
fn rotate_to_refuses_a_secret_that_is_held() {
    let mut keys = RotatableKey::from_secrets("a".to_string(), "b".to_string(), 5).unwrap();
    assert!(!keys.rotate_to("a".to_string(), 9));
    assert!(!keys.rotate_to("b".to_string(), 9));
    assert_eq!(keys.keys(), ["a", "b"]);
    assert_eq!(keys.active_id(), 0);
    assert_eq!(keys.last_updated(), 5);
}

#[test]
fn rotate_keeps_the_secrets_apart() {
    let mut keys = RotatableKey::new(16).unwrap();
    for round in 0..20 {
        let before = keys.active_key().to_string();
        assert!(keys.rotate());
        assert_eq!(keys.active_id(), (round + 1) % 2);
        assert_eq!(keys.inactive_key(), before);
        let [first, second] = keys.keys();
        assert_ne!(first, second);
        assert_eq!(keys.active_key().len(), 16);
    }
}

#[test]
fn key_holds_its_secret() {
    let key = Key::from_secret(b"secret");
    assert_eq!(key.secret(), b"secret");
}

#[test]
fn token_is_an_hs512_token_of_the_claim() {
    let keys = RotatableJwtKey::from_rotatable(
        RotatableKey::from_secrets("first".to_string(), "second".to_string(), 0).unwrap(),
    );
    let token = keys.encode(&claim("S1", 42)).unwrap();
    let mut rules = Validation::new(Algorithm::HS512);
    rules.required_spec_claims.clear();
    rules.validate_exp = false;
    let read = jsonwebtoken::decode::<serde_json::Value>(
        &token,
        &DecodingKey::from_secret(b"first"),
        &rules,
    )
    .unwrap();
    assert_eq!(read.header.alg, Algorithm::HS512);
    assert_eq!(read.claims["server_name"], "S1");
    assert_eq!(read.claims["uid"], 42);
    assert!(jsonwebtoken::decode::<serde_json::Value>(
        &token,
        &DecodingKey::from_secret(b"second"),
        &rules
    )
    .is_err());
}

#[test]
fn decode_reads_what_encode_signed() {
    let keys = RotatableJwtKey::new(KEY_LENGTH).unwrap();
    let token = keys.encode(&claim("S1", -7)).unwrap();
    let (slot, read) = keys.decode(&token).unwrap();
    assert_eq!(slot, keys.active_id());
    assert_eq!(read.server_name, "S1");
    assert_eq!(read.uid, -7);
}

#[test]
fn decode_refuses_what_is_no_token_of_its_keys() {
    let keys = RotatableJwtKey::new(KEY_LENGTH).unwrap();
    let other = RotatableJwtKey::new(KEY_LENGTH).unwrap();
    assert!(keys.decode("not a token").is_none());
    assert!(keys.decode("").is_none());
    let foreign = other.encode(&claim("S1", 1)).unwrap();
    assert!(keys.decode(&foreign).is_none());
    let mut tampered = keys.encode(&claim("S1", 1)).unwrap();
    tampered.push('x');
    assert!(keys.decode(&tampered).is_none());
}

#[test]
fn token_outlives_one_rotation_and_not_two() {
    let mut keys = RotatableJwtKey::new(KEY_LENGTH).unwrap();
    let token = keys.encode(&claim("S1", 99)).unwrap();
    assert_eq!(keys.decode(&token).unwrap().0, 0);

    assert!(keys.rotate());
    assert_eq!(keys.active_id(), 1);
    assert_eq!(keys.inactive_id(), 0);
    let (slot, read) = keys.decode(&token).unwrap();
    assert_eq!(slot, 0);
    assert_eq!(read.uid, 99);
    let newer = keys.encode(&claim("S2", 5)).unwrap();
    assert_eq!(keys.decode(&newer).unwrap().0, 1);

    assert!(keys.rotate());
    assert_eq!(keys.active_id(), 0);
    assert!(keys.decode(&token).is_none());
    assert_eq!(keys.decode(&newer).unwrap().0, 1);
}

#[test]
fn jwt_keys_follow_the_secrets() {
    let mut keys = RotatableJwtKey::from_rotatable(
        RotatableKey::from_secrets("first".to_string(), "second".to_string(), 3).unwrap(),
    );
    assert_eq!(keys.active_key().secret(), b"first");
    assert_eq!(keys.inactive_key().secret(), b"second");
    assert_eq!(keys.last_updated(), 3);
    assert!(keys.rotate());
    assert_eq!(keys.inactive_key().secret(), b"first");
    assert_ne!(keys.active_key().secret(), b"second");
    assert!(keys.last_updated() > 1_600_000_000_000);
}

#[test]
fn a_secret_that_collides_is_set_apart() {
    let held = |text: &str| text.to_string();
    let drawn = |text: &str| text.chars().collect::<Vec<char>>();
    assert_eq!(secret_apart(drawn("Ab"), &held("Xy"), &held("Zz")), "Ab");
    assert_eq!(secret_apart(drawn("Ab"), &held("Ab"), &held("Zz")), "Bb");
    assert_eq!(secret_apart(drawn("Ab"), &held("Zz"), &held("Ab")), "Bb");
    assert_eq!(secret_apart(drawn("Ab"), &held("Ab"), &held("Bx")), "Cb");
    assert_eq!(secret_apart(drawn("Bb"), &held("Bb"), &held("Ax")), "Cb");
    assert_eq!(secret_apart(drawn("Cb"), &held("Cb"), &held("")), "Ab");
    assert_eq!(secret_apart(drawn("q"), &held("q"), &held("q")), "A");
    assert_eq!(secret_apart(drawn(""), &held(""), &held("x")), "");
}

#[test]
fn chars_are_drawn_from_the_charset() {
    let chars = gen_chars(500);
    assert_eq!(chars.len(), 500);
    assert!(chars.iter().all(|c| CHARSET.contains(*c)));
    assert!(gen_chars(0).is_empty());
}

#[test]
fn there_are_keys_for_every_size_but_zero() {
    for size in 1..40 {
        for _ in 0..20 {
            let keys = RotatableKey::new(size).unwrap();
            let [first, second] = keys.keys();
            assert_ne!(first, second);
            assert_eq!((first.len(), second.len()), (size, size));
        }
    }
    assert!(RotatableKey::new(0).is_none());
    assert!(RotatableJwtKey::new(0).is_none());
    assert!(RotatableJwtKey::new(1).is_some());
}

#[test]
fn rotation_always_takes_place_and_is_stamped() {
    let mut keys = RotatableKey::new(1).unwrap();
    for round in 0..500i64 {
        let before = keys.active_key().to_string();
        assert!(keys.rotate_at(round));
        assert_eq!(keys.last_updated(), round);
        assert_eq!(keys.inactive_key(), before);
        let [first, second] = keys.keys();
        assert_ne!(first, second);
        assert_eq!(keys.active_key().len(), 1);
    }
    let mut jwt = RotatableJwtKey::new(2).unwrap();
    assert!(jwt.rotate_at(77));
    assert_eq!(jwt.last_updated(), 77);
    assert_eq!(jwt.active_key().secret().len(), 2);
}

#[test]
fn a_store_with_an_empty_first_secret_does_not_rotate() {
    let mut keys = RotatableKey::from_secrets("".to_string(), "b".to_string(), 5).unwrap();
    assert!(!keys.rotate_at(9));
    assert!(!keys.rotate());
    assert_eq!(keys.keys(), ["", "b"]);
    assert_eq!(keys.last_updated(), 5);
}
