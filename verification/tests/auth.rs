use cineforge::auth::{hash_password, login_user, password_matches, register_user};

#[test]
fn password_hash_is_hex_sha256_of_salt_then_password() {
    assert_eq!(
        hash_password("secret", "salt123"),
        "b2baad823b983c29d92dada85a96783a510c68650ab12685074686c5f664f270"
    );
    assert_eq!(hash_password("", ""), "e3b0c44298fc1c149afbf4c8996fb92427ae41e4649b934ca495991b7852b855");
    assert!(password_matches("secret", "salt123", "b2baad823b983c29d92dada85a96783a510c68650ab12685074686c5f664f270"));
    assert!(!password_matches("Secret", "salt123", "b2baad823b983c29d92dada85a96783a510c68650ab12685074686c5f664f270"));
}

#[test]
fn registered_password_logs_in() {
    let user = register_user("pw", false).ok().unwrap();
    assert_eq!(user.salt.len(), 36);
    assert_ne!(user.token, user.refresh_token);
    let tokens = login_user("pw", Some((user.password_hash.clone(), user.salt.clone())));
    assert!(tokens.is_ok());
    assert_eq!(login_user("wrong", Some((user.password_hash, user.salt))).err(), Some("用户名或密码错误".to_string()));
    assert_eq!(login_user("pw", None).err(), Some("用户名或密码错误".to_string()));
}

#[test]
fn taken_username_is_refused() {
    assert_eq!(register_user("pw", true).err(), Some("用户名已被注册".to_string()));
}
