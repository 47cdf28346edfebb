use justice_server::controllers::users::{
    create_user, get_user_id, login_user, register_user, validate_user,
};
use justice_server::error::{ErrorKind, Field};
use justice_server::models::users::{
    LoginUserRequest, LoginUserResponse, LogoutUserResponse, Password, PasswordHash, Username,
};
use justice_server::random::{RandomGenerator, SmallRandom};
use justice_server::repositories::sessions::MemorySessions;
use justice_server::repositories::users::MemoryUsers;
use justice_server::services::session::validate_session;
use justice_server::services::trace::TraceId;

struct FixedSalt;

impl RandomGenerator for FixedSalt {
    fn get_salt(&mut self) -> String {
        "salt".to_string()
    }
}

fn request(username: &str, password: &str) -> LoginUserRequest {
    LoginUserRequest {
        username: Username::new(username.to_string()),
        password: Password::new(password.to_string()),
    }
}

fn tokens(t: &[&str]) -> Vec<String> {
    t.iter().map(|s| s.to_string()).collect()
}

fn trace() -> TraceId {
    TraceId::from_string("trace".to_string())
}

#[test]
fn test_validate_user_ok() {
    let errors = validate_user(&request("valid_user", "ValidPass123"));
    assert!(errors.is_empty());
}

#[test]
fn test_validate_user_invalid_username_and_password() {
    let errors = validate_user(&request("", ""));
    assert!(errors.contains_key(Field::Username));
    assert!(errors.contains_key(Field::Password));
}

#[test]
fn test_validate_user_invalid_username() {
    let errors = validate_user(&request("вууу", "ValidPass123"));
    assert!(errors.contains_key(Field::Username));
}

#[test]
fn test_validate_user_invalid_username_length() {
    let errors = validate_user(&request("0123456789012345678901234567890123456789", "123"));
    assert!(errors.contains_key(Field::Username));
}

#[test]
fn username_messages_follow_rules() {
    assert_eq!(Username::new("  ".to_string()).validate(), vec!["Empty username".to_string()]);
    assert_eq!(
        Username::new(" ab ".to_string()).validate(),
        vec!["Username must be more than 3 characters".to_string()]
    );
    assert_eq!(
        Username::new("a b!".to_string()).validate(),
        vec!["Username must contain only latin letters or digits, underscores, dashes and dots".to_string()]
    );
    let long = "x".repeat(31);
    assert_eq!(
        Username::new(long).validate(),
        vec!["Username must be less than 30 characters".to_string()]
    );
    assert!(Username::new("x".repeat(30)).validate().is_empty());
    assert!(Username::new("a.b-c_1".to_string()).validate().is_empty());
    let errors = Username::new("ж".to_string()).validate();
    assert_eq!(errors.len(), 2);
}

#[test]
fn password_messages_follow_rules() {
    assert_eq!(Password::new(" \t".to_string()).validate(), vec!["Empty password".to_string()]);
    assert_eq!(
        Password::new("12345".to_string()).validate(),
        vec!["Password must be more than 6 characters".to_string()]
    );
    assert!(Password::new("123456".to_string()).validate().is_empty());
    assert_eq!(
        Password::new("  12345  ".to_string()).validate(),
        vec!["Password must be more than 6 characters".to_string()]
    );
}

#[test]
fn field_errors_list_each_field_once() {
    let errors = validate_user(&request("ab", "12345"));
    assert_eq!(errors.entries.len(), 2);
    assert_eq!(errors.entries[0].field, Field::Username);
    assert_eq!(errors.entries[1].field, Field::Password);
    assert_eq!(errors.entries[0].field.name(), "username");
    assert_eq!(errors.entries[1].field.name(), "password");
}

#[test]
fn password_hash_is_hex_sha256_of_password_and_salt() {
    let hash = PasswordHash::new("ValidPass123", "salt");
    assert_eq!(
        hash.as_str(),
        "b60528838704c557d7001993417da80f4592f00c357156671a2f0e80daea48d1"
    );
    assert_eq!(hash.get_salt(), "salt");
    let other = PasswordHash::new("pw", "salt");
    assert_eq!(
        other.as_str(),
        "fe5002e3a1ba48a982f7c31fec72065d1b451547ce2290a766ba477bfec32182"
    );
}

#[test]
fn small_random_salts_are_hex() {
    let mut rng = SmallRandom::new(807234275934919497);
    let a = rng.get_salt();
    let b = rng.get_salt();
    assert_eq!(a.len(), 32);
    assert!(a.chars().all(|c| c.is_ascii_hexdigit() && !c.is_ascii_uppercase()));
    assert_ne!(a, b);
    let mut same = SmallRandom::new(807234275934919497);
    assert_eq!(same.get_salt(), a);
}

#[test]
fn test_create_user_ok() {
    let mut users = MemoryUsers::new();
    let result = create_user(&mut FixedSalt, &mut users, &request("valid_user", "ValidPass123"), 0, &trace())
        .expect("failed to create user");
    assert_eq!(result.get(), 1);
}

#[test]
fn test_create_user_conflict() {
    let mut users = MemoryUsers::new();
    let user = request("valid_user", "ValidPass123");
    create_user(&mut FixedSalt, &mut users, &user, 0, &trace()).unwrap();
    let result = create_user(&mut FixedSalt, &mut users, &user, 0, &trace());
    assert_eq!(result.unwrap_err().kind(), ErrorKind::Conflict);
}

#[test]
fn test_get_user_id_by_username_ok() {
    let mut users = MemoryUsers::new();
    let user = request("valid_user", "ValidPass123");
    let id = create_user(&mut FixedSalt, &mut users, &user, 0, &trace()).unwrap();
    let result = get_user_id(&users, &user, &trace());
    assert_eq!(result.unwrap(), id);
}

#[test]
fn test_get_user_id_by_username_not_found() {
    let mut users = MemoryUsers::new();
    create_user(&mut FixedSalt, &mut users, &request("valid_user", "ValidPass123"), 0, &trace()).unwrap();
    let wrong = get_user_id(&users, &request("valid_user", "WrongPass123"), &trace());
    assert_eq!(wrong.unwrap_err().kind(), ErrorKind::NotFound);
    let unknown = get_user_id(&users, &request("other_user", "ValidPass123"), &trace());
    assert_eq!(unknown.unwrap_err().kind(), ErrorKind::NotFound);
}

#[test]
fn register_then_login_resolves_to_new_user() {
    let mut users = MemoryUsers::new();
    let mut sessions = MemorySessions::new();
    let mut rng = SmallRandom::new(42);
    let creds = request("new_user", "secret123");
    let registered = register_user(&mut rng, &mut users, &mut sessions, &creds, 1000, &tokens(&["first"]), &trace()).unwrap();
    let logged_in = login_user(&users, &mut sessions, &creds, 2000, &tokens(&["first", "second"]), &trace()).unwrap();
    assert_eq!(logged_in.user_id, registered.user_id);
    assert_eq!(registered.session, "first");
    assert_eq!(logged_in.session, "second");
    let owner = validate_session(&sessions, &logged_in.session, 3000, &trace()).unwrap();
    assert_eq!(owner, registered.user_id);
}

#[test]
fn register_rejects_invalid_and_duplicate() {
    let mut users = MemoryUsers::new();
    let mut sessions = MemorySessions::new();
    let bad = register_user(&mut FixedSalt, &mut users, &mut sessions, &request("x", "1"), 0, &tokens(&["a"]), &trace());
    assert_eq!(bad.unwrap_err().kind(), ErrorKind::Validation);
    let creds = request("someone", "password1");
    register_user(&mut FixedSalt, &mut users, &mut sessions, &creds, 0, &tokens(&["a"]), &trace()).unwrap();
    let again = register_user(&mut FixedSalt, &mut users, &mut sessions, &creds, 0, &tokens(&["b"]), &trace());
    assert_eq!(again.unwrap_err().kind(), ErrorKind::Conflict);
}

#[test]
fn login_cookie_values() {
    let response = LoginUserResponse::new(justice_server::ids::UserId::new(3), "tok".to_string());
    assert_eq!(response.session_cookie(), "session=tok; Max-Age=604800");
    assert_eq!(LogoutUserResponse.session_cookie(), "session=_; Max-Age=0");
}
