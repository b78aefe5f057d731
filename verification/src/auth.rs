//! What the authentication commands tell the user when the authentication
//! service fails: each failure is turned into a short message that does not
//! reveal more than it should (a failed login never says whether the name
//! or the password was wrong).

use vstd::prelude::*;
use crate::text::{char_len, contains, contains_spec, owned, push_str, str_eq};

verus! {

/// How the authentication service can fail.
#[derive(Debug, Clone)]
pub enum AuthFailure {
    /// The credentials were refused, or the account is locked.
    Authentication { message: String },
    /// The input was refused.
    Validation { message: String },
    /// A record with this identifier exists already.
    AlreadyExists { resource: String, identifier: String },
    /// The database failed.
    Database { message: String },
    /// Any other failure.
    Other { message: String },
}

/// The message a failed login shows: a locked account says so, other
/// refused credentials get one message for both a wrong name and a wrong
/// password.
pub open spec fn login_message_spec(e: AuthFailure) -> Seq<char> {
    match e {
        AuthFailure::Authentication { message } => if contains_spec(message@, "locked"@) {
            message@
        } else {
            "Invalid username or password"@
        },
        AuthFailure::Validation { message } => message@,
        AuthFailure::AlreadyExists { .. } => "User already exists"@,
        _ => "Authentication service temporarily unavailable"@,
    }
}

/// The message a failed registration shows.
pub open spec fn register_message_spec(e: AuthFailure) -> Seq<char> {
    match e {
        AuthFailure::Validation { message } => message@,
        AuthFailure::AlreadyExists { resource, identifier } => if resource@ == "user"@ {
            "Username '"@ + identifier@ + "' is already taken"@
        } else {
            resource@ + " '"@ + identifier@ + "' already exists"@
        },
        AuthFailure::Database { .. } => "Registration service temporarily unavailable"@,
        _ => "Registration failed. Please try again later."@,
    }
}

/// The message a failed lookup of the current user shows.
pub open spec fn current_user_message_spec(e: AuthFailure) -> Seq<char> {
    match e {
        AuthFailure::Database { .. } => "User service temporarily unavailable"@,
        _ => "Failed to retrieve user information"@,
    }
}

/// The message a failed password change shows.
pub open spec fn change_password_message_spec(e: AuthFailure) -> Seq<char> {
    match e {
        AuthFailure::Authentication { message } => message@,
        AuthFailure::Validation { message } => message@,
        AuthFailure::Database { .. } => "Password change service temporarily unavailable"@,
        _ => "Password change failed. Please try again."@,
    }
}

/// The message a failed statistics request shows.
pub open spec fn auth_stats_message_spec(e: AuthFailure) -> Seq<char> {
    match e {
        AuthFailure::Database { .. } => "Statistics service temporarily unavailable"@,
        _ => "Failed to retrieve authentication statistics"@,
    }
}

/// A refused login tells nothing of its cause: two refusals of unlocked
/// accounts show the same message, whatever the service said.
pub proof fn lemma_login_hides_cause(m1: String, m2: String)
    requires
        !contains_spec(m1@, "locked"@),
        !contains_spec(m2@, "locked"@),
    ensures
        login_message_spec(AuthFailure::Authentication { message: m1 })
            == login_message_spec(AuthFailure::Authentication { message: m2 }),
{
}

/// The message for a failed login.
pub fn login_error_message(e: &AuthFailure) -> (r: String)
    ensures
        r@ == login_message_spec(*e),
{
    match e {
        AuthFailure::Authentication { message } => if contains(message.as_str(), "locked") {
            message.clone()
        } else {
            owned("Invalid username or password")
        },
        AuthFailure::Validation { message } => message.clone(),
        AuthFailure::AlreadyExists { .. } => owned("User already exists"),
        _ => owned("Authentication service temporarily unavailable"),
    }
}

/// The message for a failed registration.
pub fn register_error_message(e: &AuthFailure) -> (r: String)
    ensures
        r@ == register_message_spec(*e),
{
    match e {
        AuthFailure::Validation { message } => message.clone(),
        AuthFailure::AlreadyExists { resource, identifier } => if str_eq(resource.as_str(), "user") {
            let mut out = owned("Username '");
            push_str(&mut out, identifier.as_str());
            push_str(&mut out, "' is already taken");
            out
        } else {
            let mut out = resource.clone();
            push_str(&mut out, " '");
            push_str(&mut out, identifier.as_str());
            push_str(&mut out, "' already exists");
            out
        },
        AuthFailure::Database { .. } => owned("Registration service temporarily unavailable"),
        _ => owned("Registration failed. Please try again later."),
    }
}

/// The message for a failed lookup of the current user.
pub fn current_user_error_message(e: &AuthFailure) -> (r: String)
    ensures
        r@ == current_user_message_spec(*e),
{
    match e {
        AuthFailure::Database { .. } => owned("User service temporarily unavailable"),
        _ => owned("Failed to retrieve user information"),
    }
}

/// The message for a failed password change.
pub fn change_password_error_message(e: &AuthFailure) -> (r: String)
    ensures
        r@ == change_password_message_spec(*e),
{
    match e {
        AuthFailure::Authentication { message } => message.clone(),
        AuthFailure::Validation { message } => message.clone(),
        AuthFailure::Database { .. } => owned("Password change service temporarily unavailable"),
        _ => owned("Password change failed. Please try again."),
    }
}

/// The message for a failed statistics request.
pub fn auth_stats_error_message(e: &AuthFailure) -> (r: String)
    ensures
        r@ == auth_stats_message_spec(*e),
{
    match e {
        AuthFailure::Database { .. } => owned("Statistics service temporarily unavailable"),
        _ => owned("Failed to retrieve authentication statistics"),
    }
}

/// Checks the input of a password change before the service is asked: both
/// passwords must be given, the current one first.
pub fn check_password_change(current_password: &str, new_password: &str) -> (r: Result<(), String>)
    ensures
        current_password@.len() == 0 ==> (r matches Err(m) && m@ == "Current password is required"@),
        current_password@.len() > 0 && new_password@.len() == 0 ==> (r matches Err(m) && m@ == "New password is required"@),
        current_password@.len() > 0 && new_password@.len() > 0 ==> r is Ok,
{
    if char_len(current_password) == 0 {
        return Err(owned("Current password is required"));
    }
    if char_len(new_password) == 0 {
        return Err(owned("New password is required"));
    }
    Ok(())
}

} // verus!
