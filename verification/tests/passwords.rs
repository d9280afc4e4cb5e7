use redox_users::argon::{check_runnable, holds_session};
use redox_users::ids::SyscallError;
use redox_users::passwd::{delay, is_right, Password, MIN_NONCE, TIMEOUT};
use redox_users::{AllUsers, Error, User};
use std::str::FromStr;

const ROOT_HASH: &str = "$argon2i$m=4096,t=10,p=1$Tnc4UVV0N00$ML9LIOujd3nmAfkAwEcSTMPqakWUF0OUiLWrIy0nGLk";

fn user_with_hash(hash: &str) -> User {
    User::from_str(&format!("u;{};1;2;n;/h;/s", hash)).unwrap()
}

#[test]
fn set_password_opens_and_others_do_not() {
    let mut user = user_with_hash("");
    user.set_passwd("password").unwrap();
    assert!(user.is_encoded());
    assert!(!user.is_passwd_blank());
    assert!(!user.is_passwd_unset());
    assert!(user.hash().starts_with("$argon2i$m=4096,t=10,p=1$"));
    assert!(user.verify_passwd("password"));
    assert!(!user.verify_passwd("Password"));
    assert!(!user.verify_passwd(""));
}

#[test]
fn hash_is_that_of_argon2rs() {
    let mut user = user_with_hash("!");
    user.set_passwd_drawn("secret", Ok(0x0123_4567_89AB_CDEF)).unwrap();
    let argon = argon2rs::Argon2::new(10, 1, 4096, argon2rs::Variant::Argon2i).ok().unwrap();
    let encoded =
        argon2rs::verifier::Encoded::new(argon, b"secret", b"123456789ABCDEF", &[], &[]);
    assert_eq!(user.hash().as_bytes(), &encoded.to_u8()[..]);
    assert_eq!(user.user, "u");
    assert_eq!(user.uid, 1);
    assert_eq!(user.gid, 2);
}

#[test]
fn two_random_salts_differ() {
    let mut a = user_with_hash("");
    let mut b = user_with_hash("");
    a.set_passwd("password").unwrap();
    b.set_passwd("password").unwrap();
    assert_ne!(a.hash(), b.hash());
}

#[test]
fn short_salt_is_refused() {
    let mut user = user_with_hash("!");
    assert_eq!(user.set_passwd_drawn("secret", Ok(MIN_NONCE - 1)), Err(Error::ShortSalt));
    assert_eq!(user.hash(), "!");
    assert_eq!(user.set_passwd_drawn("secret", Ok(MIN_NONCE)), Ok(()));
    assert!(user.verify_passwd("secret"));
}

#[test]
fn no_random_number_is_an_error() {
    let mut user = user_with_hash(ROOT_HASH);
    assert_eq!(
        user.set_passwd_drawn("secret", Err("no entropy".to_string())),
        Err(Error::Random { reason: "no entropy".to_string() })
    );
    assert_eq!(user.hash(), ROOT_HASH);
}

#[test]
fn blank_password() {
    let mut user = user_with_hash("!");
    user.set_passwd("").unwrap();
    assert_eq!(user.hash(), "");
    assert!(user.is_passwd_blank());
    assert!(!user.is_passwd_unset());
    assert!(!user.is_encoded());
    assert!(user.verify_passwd(""));
    assert!(!user.verify_passwd("x"));
}

#[test]
fn unset_password() {
    let mut user = user_with_hash("");
    user.unset_passwd();
    assert_eq!(user.hash(), "!");
    assert!(user.is_passwd_unset());
    assert!(!user.is_passwd_blank());
    assert!(!user.verify_passwd(""));
    assert!(!user.verify_passwd("!"));
}

#[test]
fn any_hash_that_is_no_session_is_unset() {
    let cases = [
        "!",
        "*",
        "!!",
        "no session",
        "$argon2",
        "$argon2i",
        "$argon2i$m=4096",
        "$argon2i$m=4096,t=10,p=1",
        "$argon2i$m=4096,t=10,p=1$",
        "$argon2i$m=4096,t=10,p=1$Tnc4UVV0N00",
        "$argon2i$m=4096,t=10,p=1$Tnc4UVV0N00$",
        "$argon2y$m=4096,t=10,p=1$Tnc4UVV0N00$ML9L",
        "$argon2i$m=4096,t=10,p=0$Tnc4UVV0N00$ML9L",
        "$argon2i$m=4,t=10,p=1$Tnc4UVV0N00$ML9L",
        "$argon2i$m=4096,t=10,p=1$Tnc4UVV0N00$ML9L*",
        "a$b$c$d$e",
        "$$$$",
        "$\u{e9}$\u{20ac}$x$y",
    ];
    for hash in cases {
        let user = user_with_hash(hash);
        assert_eq!(user.hash(), hash);
        assert!(!user.is_encoded());
        assert!(user.is_passwd_unset());
        assert!(!user.is_passwd_blank());
        assert_eq!(user.checked_verify_passwd(""), Some(false));
        assert_eq!(user.checked_verify_passwd(hash), Some(false));
    }
}

#[test]
fn known_session() {
    // from the test suite of argon2rs
    let user = user_with_hash(
        "$argon2i$m=4096,t=3,p=1$dG9kbzogZnV6eiB0ZXN0cw$Eh1lW3mjkhlMLRQdE7vXZnvwDXSGLBfXa6BGK4a1J3s",
    );
    assert!(user.is_encoded());
    assert_eq!(user.checked_verify_passwd("argon2i!"), Some(true));
    assert_eq!(user.checked_verify_passwd("nope"), Some(false));
}

#[test]
fn session_with_a_short_salt_cannot_be_verified() {
    let hash = "$argon2i$m=4096,t=1,p=1$YWJjZGVmZw$ML9LIOujd3nmAfkAwEcSTMPqakWUF0OUiLWrIy0nGLk";
    let user = user_with_hash(hash);
    assert!(user.is_encoded());
    assert!(!user.is_passwd_unset());
    assert!(!check_runnable(hash.as_bytes()));
    assert_eq!(user.checked_verify_passwd("x"), None);
    assert!(check_runnable(ROOT_HASH.as_bytes()));
}

#[test]
fn session_with_a_long_key_cannot_be_verified() {
    let key43 = "A".repeat(43);
    let key46 = "A".repeat(46);
    let text = |key: &str| {
        format!("$argon2i$m=8,t=1,p=1,keyid={},data=AAAA$Tnc4UVV0N00$ML9LIOujd3nmAfkAwEcSTMPqakWUF0OUiLWrIy0nGLk", key)
    };
    assert!(holds_session(text(&key43).as_bytes()));
    assert!(check_runnable(text(&key43).as_bytes()));
    assert_eq!(user_with_hash(&text(&key43)).checked_verify_passwd("x"), Some(false));
    assert!(holds_session(text(&key46).as_bytes()));
    assert!(!check_runnable(text(&key46).as_bytes()));
    assert_eq!(user_with_hash(&text(&key46)).checked_verify_passwd("x"), None);
}

#[test]
fn decision_on_the_answer_of_the_session() {
    assert!(is_right("hash", "x", Some(true)));
    assert!(!is_right("hash", "x", Some(false)));
    assert!(is_right("", "", None));
    assert!(!is_right("", "x", None));
    assert!(!is_right("!", "", None));
}

#[test]
fn wrong_password_costs_time() {
    assert_eq!(TIMEOUT, 3);
    assert_eq!(delay(false), 3);
    assert_eq!(delay(true), 0);
}

#[test]
fn password_values() {
    assert_eq!(Password::blank().hash(), "");
    assert_eq!(Password::unset().hash(), "!");
    assert_eq!(user_with_hash("*").passwd.hash(), "*");
    assert!(user_with_hash(ROOT_HASH).passwd.is_encoded());
    let salted = Password::salted("secret", MIN_NONCE);
    assert!(salted.hash().starts_with("$argon2i$m=4096,t=10,p=1$"));
    assert!(salted.verify("secret"));
    assert!(Password::blank().is_blank());
    assert!(Password::unset().can_verify("x"));
}

#[test]
fn password_survives_saving() {
    let mut users = AllUsers::new("u;!;1;2;n;/h;/s\n");
    users.get_mut_by_name("u").unwrap().set_passwd("secret").unwrap();
    let again = AllUsers::new(&users.save());
    assert_eq!(again.get_by_id(1).unwrap().checked_verify_passwd("secret"), Some(true));
    assert_eq!(again.get_by_id(1).unwrap().checked_verify_passwd("Secret"), Some(false));
}

#[test]
fn added_user_cannot_log_in() {
    let mut users = AllUsers::new("");
    users.add_user("a", 1, 1, "A", "/a", "/s").unwrap();
    let user = users.get_by_name("a").unwrap();
    assert!(user.is_passwd_unset());
    assert!(!user.verify_passwd(""));
}

#[test]
fn system_call_errors_have_texts() {
    assert_eq!(SyscallError { errno: 1 }.text(), "Operation not permitted");
    assert_eq!(SyscallError { errno: 0 }.text(), "Success");
    assert_eq!(SyscallError { errno: 5000 }.text(), "Unknown Error");
    assert_eq!(SyscallError { errno: -1 }.text(), "Unknown Error");
}
