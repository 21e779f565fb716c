use authen::AuthError;

#[test]
fn error_messages() {
    assert_eq!(AuthError::UserAlreadyExists.message(), "User already exists");
    assert_eq!(AuthError::InvalidCredentials.message(), "Invalid credentials");
    assert_eq!(AuthError::SignupError("x".to_string()).message(), "Signup error: x");
    assert_eq!(AuthError::InvalidInput("y".to_string()).message(), "Invalid input: y");
    assert_eq!(AuthError::InvalidToken("z".to_string()).message(), "Invalid token: z");
    assert_eq!(AuthError::TokenExpired.message(), "Token expired");
    assert_eq!(AuthError::TokenValidation("k".to_string()).message(), "Token validation error: k");
    assert_eq!(AuthError::Internal("i".to_string()).message(), "Internal error: i");
}
