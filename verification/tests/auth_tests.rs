use super_lotto::auth::{
    auth_stats_error_message, change_password_error_message, check_password_change, current_user_error_message,
    login_error_message, register_error_message, AuthFailure,
};

fn auth(m: &str) -> AuthFailure {
    AuthFailure::Authentication { message: m.to_string() }
}

#[test]
fn login_messages_hide_the_cause() {
    assert_eq!(login_error_message(&auth("wrong password")), "Invalid username or password");
    assert_eq!(login_error_message(&auth("no such user")), "Invalid username or password");
    assert_eq!(login_error_message(&auth("account locked for 15 minutes")), "account locked for 15 minutes");
    assert_eq!(
        login_error_message(&AuthFailure::Validation { message: "Username too short".to_string() }),
        "Username too short"
    );
    assert_eq!(
        login_error_message(&AuthFailure::AlreadyExists { resource: "user".to_string(), identifier: "ann".to_string() }),
        "User already exists"
    );
    assert_eq!(
        login_error_message(&AuthFailure::Database { message: "down".to_string() }),
        "Authentication service temporarily unavailable"
    );
}

#[test]
fn register_messages() {
    assert_eq!(
        register_error_message(&AuthFailure::AlreadyExists { resource: "user".to_string(), identifier: "ann".to_string() }),
        "Username 'ann' is already taken"
    );
    assert_eq!(
        register_error_message(&AuthFailure::AlreadyExists { resource: "email".to_string(), identifier: "a@b".to_string() }),
        "email 'a@b' already exists"
    );
    assert_eq!(
        register_error_message(&AuthFailure::Database { message: "down".to_string() }),
        "Registration service temporarily unavailable"
    );
    assert_eq!(register_error_message(&auth("x")), "Registration failed. Please try again later.");
    assert_eq!(
        register_error_message(&AuthFailure::Validation { message: "Password too weak".to_string() }),
        "Password too weak"
    );
}

#[test]
fn other_command_messages() {
    let db = AuthFailure::Database { message: "down".to_string() };
    let other = AuthFailure::Other { message: "?".to_string() };
    assert_eq!(current_user_error_message(&db), "User service temporarily unavailable");
    assert_eq!(current_user_error_message(&other), "Failed to retrieve user information");
    assert_eq!(change_password_error_message(&auth("Current password is incorrect")), "Current password is incorrect");
    assert_eq!(change_password_error_message(&db), "Password change service temporarily unavailable");
    assert_eq!(change_password_error_message(&other), "Password change failed. Please try again.");
    assert_eq!(auth_stats_error_message(&db), "Statistics service temporarily unavailable");
    assert_eq!(auth_stats_error_message(&other), "Failed to retrieve authentication statistics");
}

#[test]
fn password_change_input_checks() {
    assert_eq!(check_password_change("", "new"), Err("Current password is required".to_string()));
    assert_eq!(check_password_change("", ""), Err("Current password is required".to_string()));
    assert_eq!(check_password_change("old", ""), Err("New password is required".to_string()));
    assert_eq!(check_password_change("old", "new"), Ok(()));
}
