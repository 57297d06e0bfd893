use flowy_user::errors::server_error_to_user_error;
use flowy_user::errors::{ErrorBuilder, ErrorCode, ServerError, ServerErrorCode, UserError};

fn all_codes() -> Vec<ErrorCode> {
    vec![
        ErrorCode::Unknown,
        ErrorCode::UserDatabaseInitFailed,
        ErrorCode::AcquireWriteLockedFailed,
        ErrorCode::AcquireReadLockedFailed,
        ErrorCode::UserDatabaseDidNotMatch,
        ErrorCode::UserDatabaseInternalError,
        ErrorCode::SqlInternalError,
        ErrorCode::DatabaseConnectError,
        ErrorCode::UserNotLoginYet,
        ErrorCode::ReadCurrentIdFailed,
        ErrorCode::WriteCurrentIdFailed,
        ErrorCode::EmailIsEmpty,
        ErrorCode::EmailFormatInvalid,
        ErrorCode::EmailAlreadyExists,
        ErrorCode::PasswordIsEmpty,
        ErrorCode::PasswordTooLong,
        ErrorCode::PasswordContainsForbidCharacters,
        ErrorCode::PasswordFormatInvalid,
        ErrorCode::PasswordNotMatch,
        ErrorCode::UserNameTooLong,
        ErrorCode::UserNameContainsForbiddenCharacters,
        ErrorCode::UserNameIsEmpty,
        ErrorCode::UserWorkspaceInvalid,
        ErrorCode::UserIdInvalid,
        ErrorCode::UserTokenInvalid,
        ErrorCode::UserNotExist,
        ErrorCode::CreateDefaultWorkspaceFailed,
        ErrorCode::DefaultWorkspaceAlreadyExist,
        ErrorCode::WorkspaceNameInvalid,
        ErrorCode::WorkspaceDescInvalid,
        ErrorCode::UserIdIsEmpty,
        ErrorCode::ServerError,
    ]
}

#[test]
fn describe_is_nonempty_for_every_code() {
    for code in all_codes() {
        assert!(!code.to_string().is_empty(), "{:?} has an empty description", code);
    }
}

#[test]
fn describe_default_code() {
    assert_eq!(ErrorCode::default(), ErrorCode::Unknown);
    assert_eq!(ErrorCode::default().to_string(), "Unknown");
}

#[test]
fn code_values_are_stable() {
    assert_eq!(ErrorCode::Unknown.value(), 0);
    assert_eq!(ErrorCode::UserDatabaseInitFailed.value(), 1);
    assert_eq!(ErrorCode::SqlInternalError.value(), 6);
    assert_eq!(ErrorCode::DatabaseConnectError.value(), 7);
    assert_eq!(ErrorCode::UserNotLoginYet.value(), 10);
    assert_eq!(ErrorCode::EmailIsEmpty.value(), 20);
    assert_eq!(ErrorCode::PasswordIsEmpty.value(), 30);
    assert_eq!(ErrorCode::UserNameTooLong.value(), 40);
    assert_eq!(ErrorCode::UserWorkspaceInvalid.value(), 50);
    assert_eq!(ErrorCode::UserTokenInvalid.value(), 54);
    assert_eq!(ErrorCode::UserNotExist.value(), 55);
    assert_eq!(ErrorCode::CreateDefaultWorkspaceFailed.value(), 60);
    assert_eq!(ErrorCode::ServerError.value(), 100);
}

#[test]
fn code_value_round_trip_every_code() {
    for code in all_codes() {
        assert_eq!(ErrorCode::from_value(code.value()), Some(code));
    }
    assert_eq!(ErrorCode::from_value(9999), None);
    assert_eq!(ErrorCode::from_value(8), None);
}

#[test]
fn build_with_no_message_uses_description() {
    let e = ErrorBuilder::new(ErrorCode::UserNotExist).build();
    assert_eq!(e.code, ErrorCode::UserNotExist);
    assert_eq!(e.msg, "User not exist");
}

#[test]
fn build_with_empty_message_uses_description() {
    let e = ErrorBuilder::new(ErrorCode::EmailIsEmpty).msg("").build();
    assert_eq!(e.code, ErrorCode::EmailIsEmpty);
    assert_eq!(e.msg, "Email can not be empty or whitespace");
}

#[test]
fn build_explicit_message_wins_over_cause() {
    let e = ErrorBuilder::new(ErrorCode::ServerError)
        .msg("custom")
        .error("underlying cause".to_string())
        .build();
    assert_eq!(e.code, ErrorCode::ServerError);
    assert_eq!(e.msg, "custom");
}

#[test]
fn build_with_cause_uses_cause_text() {
    let e = ErrorBuilder::new(ErrorCode::SqlInternalError)
        .msg("")
        .error("disk is full".to_string())
        .build();
    assert_eq!(e.code, ErrorCode::SqlInternalError);
    assert_eq!(e.msg, "disk is full");
}

#[test]
fn build_with_empty_cause_falls_back_to_description() {
    let e = ErrorBuilder::new(ErrorCode::SqlInternalError).error(String::new()).build();
    assert_eq!(e.msg, "Sql internal error");
}

#[test]
fn user_error_new_keeps_code_and_message() {
    let e = UserError::new(ErrorCode::UserTokenInvalid, "session expired");
    assert_eq!(e.code, ErrorCode::UserTokenInvalid);
    assert_eq!(e.msg, "session expired");
}

#[test]
fn user_error_default_is_unknown() {
    let e = UserError::default();
    assert_eq!(e.code, ErrorCode::Unknown);
    assert!(e.msg.is_empty());
}

#[test]
fn server_code_translation_table_is_total() {
    let table = vec![
        (ServerErrorCode::InvalidToken, ErrorCode::UserTokenInvalid),
        (ServerErrorCode::Unauthorized, ErrorCode::UserTokenInvalid),
        (ServerErrorCode::PayloadOverflow, ErrorCode::ServerError),
        (ServerErrorCode::PayloadSerdeFail, ErrorCode::ServerError),
        (ServerErrorCode::PayloadUnexpectedNone, ErrorCode::ServerError),
        (ServerErrorCode::ParamsInvalid, ErrorCode::ServerError),
        (ServerErrorCode::ProtobufError, ErrorCode::ServerError),
        (ServerErrorCode::SerdeError, ErrorCode::ServerError),
        (ServerErrorCode::EmailAlreadyExists, ErrorCode::ServerError),
        (ServerErrorCode::PasswordNotMatch, ErrorCode::PasswordNotMatch),
        (ServerErrorCode::ConnectRefused, ErrorCode::ServerError),
        (ServerErrorCode::ConnectTimeout, ErrorCode::ServerError),
        (ServerErrorCode::ConnectClose, ErrorCode::ServerError),
        (ServerErrorCode::ConnectCancel, ErrorCode::ServerError),
        (ServerErrorCode::SqlError, ErrorCode::ServerError),
        (ServerErrorCode::RecordNotFound, ErrorCode::UserNotExist),
        (ServerErrorCode::HttpError, ErrorCode::ServerError),
        (ServerErrorCode::InternalError, ErrorCode::ServerError),
    ];
    for (server_code, expected) in table {
        assert_eq!(server_error_to_user_error(server_code), expected, "{:?}", server_code);
    }
}

#[test]
fn from_server_error_uses_message_as_cause() {
    let e = UserError::from_server_error(ServerError {
        code: ServerErrorCode::RecordNotFound,
        msg: "no such row".to_string(),
    });
    assert_eq!(e.code, ErrorCode::UserNotExist);
    assert_eq!(e.msg, "no such row");
}

#[test]
fn from_server_error_empty_message_uses_description() {
    let e = UserError::from_server_error(ServerError {
        code: ServerErrorCode::InvalidToken,
        msg: String::new(),
    });
    assert_eq!(e.code, ErrorCode::UserTokenInvalid);
    assert_eq!(e.msg, "User token is invalid");
}

#[test]
fn from_database_error_maps_to_internal_code() {
    let e = UserError::from_database_error("table missing".to_string());
    assert_eq!(e.code, ErrorCode::UserDatabaseInternalError);
    assert_eq!(e.msg, "table missing");
}

#[test]
fn from_sql_error_maps_to_sql_code() {
    let e = UserError::from_sql_error("syntax error".to_string());
    assert_eq!(e.code, ErrorCode::SqlInternalError);
    assert_eq!(e.msg, "syntax error");
}

#[derive(Debug)]
struct FailingConnectionManager;

#[derive(Debug)]
struct NoConnection;

impl r2d2::ManageConnection for FailingConnectionManager {
    type Connection = NoConnection;
    type Error = std::io::Error;

    fn connect(&self) -> Result<NoConnection, std::io::Error> {
        Err(std::io::Error::new(std::io::ErrorKind::ConnectionRefused, "nothing listens here"))
    }

    fn is_valid(&self, _conn: &mut NoConnection) -> Result<(), std::io::Error> {
        Ok(())
    }

    fn has_broken(&self, _conn: &mut NoConnection) -> bool {
        false
    }
}

#[test]
fn from_connection_pool_error_maps_to_connect_code() {
    let pool = r2d2::Pool::builder()
        .connection_timeout(std::time::Duration::from_millis(50))
        .build_unchecked(FailingConnectionManager);
    let pool_error = pool.get().expect_err("the pool can never hand out a connection");
    let e = UserError::from_connection_pool_error(&pool_error);
    assert_eq!(e.code, ErrorCode::DatabaseConnectError);
    assert!(!e.msg.is_empty());
}
