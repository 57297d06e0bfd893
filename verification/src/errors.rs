//! The error taxonomy: a closed set of numeric error codes with fixed,
//! human-readable descriptions, and the `UserError` value built from them.
//!
//! The numeric value of each code is part of the wire contract and must stay
//! stable across versions; [`ErrorCode::value`] and [`ErrorCode::from_value`]
//! carry that assignment, and the two are proved inverse on every variant.

use vstd::prelude::*;

verus! {

/// A closed enumeration of application-level error codes.
///
/// The default variant is [`ErrorCode::Unknown`], whose numeric value is 0.
#[derive(Clone, Copy, PartialEq, Eq, Structural, Debug)]
pub enum ErrorCode {
    Unknown,
    UserDatabaseInitFailed,
    AcquireWriteLockedFailed,
    AcquireReadLockedFailed,
    UserDatabaseDidNotMatch,
    UserDatabaseInternalError,
    SqlInternalError,
    DatabaseConnectError,
    UserNotLoginYet,
    ReadCurrentIdFailed,
    WriteCurrentIdFailed,
    EmailIsEmpty,
    EmailFormatInvalid,
    EmailAlreadyExists,
    PasswordIsEmpty,
    PasswordTooLong,
    PasswordContainsForbidCharacters,
    PasswordFormatInvalid,
    PasswordNotMatch,
    UserNameTooLong,
    UserNameContainsForbiddenCharacters,
    UserNameIsEmpty,
    UserWorkspaceInvalid,
    UserIdInvalid,
    UserTokenInvalid,
    UserNotExist,
    CreateDefaultWorkspaceFailed,
    DefaultWorkspaceAlreadyExist,
    WorkspaceNameInvalid,
    WorkspaceDescInvalid,
    UserIdIsEmpty,
    ServerError,
}

/// The stable numeric identity of each code.
pub open spec fn code_value(c: ErrorCode) -> u32 {
    match c {
        ErrorCode::Unknown => 0,
        ErrorCode::UserDatabaseInitFailed => 1,
        ErrorCode::AcquireWriteLockedFailed => 2,
        ErrorCode::AcquireReadLockedFailed => 3,
        ErrorCode::UserDatabaseDidNotMatch => 4,
        ErrorCode::UserDatabaseInternalError => 5,
        ErrorCode::SqlInternalError => 6,
        ErrorCode::DatabaseConnectError => 7,
        ErrorCode::UserNotLoginYet => 10,
        ErrorCode::ReadCurrentIdFailed => 11,
        ErrorCode::WriteCurrentIdFailed => 12,
        ErrorCode::EmailIsEmpty => 20,
        ErrorCode::EmailFormatInvalid => 21,
        ErrorCode::EmailAlreadyExists => 22,
        ErrorCode::PasswordIsEmpty => 30,
        ErrorCode::PasswordTooLong => 31,
        ErrorCode::PasswordContainsForbidCharacters => 32,
        ErrorCode::PasswordFormatInvalid => 33,
        ErrorCode::PasswordNotMatch => 34,
        ErrorCode::UserNameTooLong => 40,
        ErrorCode::UserNameContainsForbiddenCharacters => 41,
        ErrorCode::UserNameIsEmpty => 42,
        ErrorCode::UserWorkspaceInvalid => 50,
        ErrorCode::UserIdInvalid => 51,
        ErrorCode::UserTokenInvalid => 54,
        ErrorCode::UserNotExist => 55,
        ErrorCode::CreateDefaultWorkspaceFailed => 60,
        ErrorCode::DefaultWorkspaceAlreadyExist => 61,
        ErrorCode::WorkspaceNameInvalid => 70,
        ErrorCode::WorkspaceDescInvalid => 71,
        ErrorCode::UserIdIsEmpty => 72,
        ErrorCode::ServerError => 100,
    }
}

/// The code whose numeric value is `v`, if any.
pub open spec fn spec_code_from_value(v: u32) -> Option<ErrorCode> {
    if v == 0 {
        Some(ErrorCode::Unknown)
    } else if v == 1 {
        Some(ErrorCode::UserDatabaseInitFailed)
    } else if v == 2 {
        Some(ErrorCode::AcquireWriteLockedFailed)
    } else if v == 3 {
        Some(ErrorCode::AcquireReadLockedFailed)
    } else if v == 4 {
        Some(ErrorCode::UserDatabaseDidNotMatch)
    } else if v == 5 {
        Some(ErrorCode::UserDatabaseInternalError)
    } else if v == 6 {
        Some(ErrorCode::SqlInternalError)
    } else if v == 7 {
        Some(ErrorCode::DatabaseConnectError)
    } else if v == 10 {
        Some(ErrorCode::UserNotLoginYet)
    } else if v == 11 {
        Some(ErrorCode::ReadCurrentIdFailed)
    } else if v == 12 {
        Some(ErrorCode::WriteCurrentIdFailed)
    } else if v == 20 {
        Some(ErrorCode::EmailIsEmpty)
    } else if v == 21 {
        Some(ErrorCode::EmailFormatInvalid)
    } else if v == 22 {
        Some(ErrorCode::EmailAlreadyExists)
    } else if v == 30 {
        Some(ErrorCode::PasswordIsEmpty)
    } else if v == 31 {
        Some(ErrorCode::PasswordTooLong)
    } else if v == 32 {
        Some(ErrorCode::PasswordContainsForbidCharacters)
    } else if v == 33 {
        Some(ErrorCode::PasswordFormatInvalid)
    } else if v == 34 {
        Some(ErrorCode::PasswordNotMatch)
    } else if v == 40 {
        Some(ErrorCode::UserNameTooLong)
    } else if v == 41 {
        Some(ErrorCode::UserNameContainsForbiddenCharacters)
    } else if v == 42 {
        Some(ErrorCode::UserNameIsEmpty)
    } else if v == 50 {
        Some(ErrorCode::UserWorkspaceInvalid)
    } else if v == 51 {
        Some(ErrorCode::UserIdInvalid)
    } else if v == 54 {
        Some(ErrorCode::UserTokenInvalid)
    } else if v == 55 {
        Some(ErrorCode::UserNotExist)
    } else if v == 60 {
        Some(ErrorCode::CreateDefaultWorkspaceFailed)
    } else if v == 61 {
        Some(ErrorCode::DefaultWorkspaceAlreadyExist)
    } else if v == 70 {
        Some(ErrorCode::WorkspaceNameInvalid)
    } else if v == 71 {
        Some(ErrorCode::WorkspaceDescInvalid)
    } else if v == 72 {
        Some(ErrorCode::UserIdIsEmpty)
    } else if v == 100 {
        Some(ErrorCode::ServerError)
    } else {
        None
    }
}

/// The fixed description of each code.
pub open spec fn describe(c: ErrorCode) -> Seq<char> {
    match c {
        ErrorCode::Unknown => "Unknown"@,
        ErrorCode::UserDatabaseInitFailed => "Database init failed"@,
        ErrorCode::AcquireWriteLockedFailed => "Acquire database write lock failed"@,
        ErrorCode::AcquireReadLockedFailed => "Acquire database read lock failed"@,
        ErrorCode::UserDatabaseDidNotMatch => "Opening database is not belonging to the current user"@,
        ErrorCode::UserDatabaseInternalError => "Database internal error"@,
        ErrorCode::SqlInternalError => "Sql internal error"@,
        ErrorCode::DatabaseConnectError => "r2d2 connection error"@,
        ErrorCode::UserNotLoginYet => "User not login yet"@,
        ErrorCode::ReadCurrentIdFailed => "Get current id read lock failed"@,
        ErrorCode::WriteCurrentIdFailed => "Get current id write lock failed"@,
        ErrorCode::EmailIsEmpty => "Email can not be empty or whitespace"@,
        ErrorCode::EmailFormatInvalid => "Email format is not valid"@,
        ErrorCode::EmailAlreadyExists => "Email already exists"@,
        ErrorCode::PasswordIsEmpty => "Password can not be empty or whitespace"@,
        ErrorCode::PasswordTooLong => "Password format too long"@,
        ErrorCode::PasswordContainsForbidCharacters => "Password contains forbidden characters."@,
        ErrorCode::PasswordFormatInvalid => "Password should contain a minimum of 6 characters with 1 special 1 letter and 1 numeric"@,
        ErrorCode::PasswordNotMatch => "Password not match"@,
        ErrorCode::UserNameTooLong => "User name is too long"@,
        ErrorCode::UserNameContainsForbiddenCharacters => "User name contain forbidden characters"@,
        ErrorCode::UserNameIsEmpty => "User name can not be empty or whitespace"@,
        ErrorCode::UserWorkspaceInvalid => "User workspace is invalid"@,
        ErrorCode::UserIdInvalid => "User id is invalid"@,
        ErrorCode::UserTokenInvalid => "User token is invalid"@,
        ErrorCode::UserNotExist => "User not exist"@,
        ErrorCode::CreateDefaultWorkspaceFailed => "Create user default workspace failed"@,
        ErrorCode::DefaultWorkspaceAlreadyExist => "User default workspace already exists"@,
        ErrorCode::WorkspaceNameInvalid => "Workspace name is invalid"@,
        ErrorCode::WorkspaceDescInvalid => "Workspace description is invalid"@,
        ErrorCode::UserIdIsEmpty => "User id can not be empty"@,
        ErrorCode::ServerError => "Server error"@,
    }
}

impl ErrorCode {
    /// The stable numeric value of this code.
    pub fn value(&self) -> (v: u32)
        ensures
            v == code_value(*self),
    {
        match self {
            ErrorCode::Unknown => 0,
            ErrorCode::UserDatabaseInitFailed => 1,
            ErrorCode::AcquireWriteLockedFailed => 2,
            ErrorCode::AcquireReadLockedFailed => 3,
            ErrorCode::UserDatabaseDidNotMatch => 4,
            ErrorCode::UserDatabaseInternalError => 5,
            ErrorCode::SqlInternalError => 6,
            ErrorCode::DatabaseConnectError => 7,
            ErrorCode::UserNotLoginYet => 10,
            ErrorCode::ReadCurrentIdFailed => 11,
            ErrorCode::WriteCurrentIdFailed => 12,
            ErrorCode::EmailIsEmpty => 20,
            ErrorCode::EmailFormatInvalid => 21,
            ErrorCode::EmailAlreadyExists => 22,
            ErrorCode::PasswordIsEmpty => 30,
            ErrorCode::PasswordTooLong => 31,
            ErrorCode::PasswordContainsForbidCharacters => 32,
            ErrorCode::PasswordFormatInvalid => 33,
            ErrorCode::PasswordNotMatch => 34,
            ErrorCode::UserNameTooLong => 40,
            ErrorCode::UserNameContainsForbiddenCharacters => 41,
            ErrorCode::UserNameIsEmpty => 42,
            ErrorCode::UserWorkspaceInvalid => 50,
            ErrorCode::UserIdInvalid => 51,
            ErrorCode::UserTokenInvalid => 54,
            ErrorCode::UserNotExist => 55,
            ErrorCode::CreateDefaultWorkspaceFailed => 60,
            ErrorCode::DefaultWorkspaceAlreadyExist => 61,
            ErrorCode::WorkspaceNameInvalid => 70,
            ErrorCode::WorkspaceDescInvalid => 71,
            ErrorCode::UserIdIsEmpty => 72,
            ErrorCode::ServerError => 100,
        }
    }

    /// The code whose numeric value is `v`, or `None` if no code has it.
    pub fn from_value(v: u32) -> (r: Option<ErrorCode>)
        ensures
            r == spec_code_from_value(v),
    {
        if v == 0 {
            Some(ErrorCode::Unknown)
        } else if v == 1 {
            Some(ErrorCode::UserDatabaseInitFailed)
        } else if v == 2 {
            Some(ErrorCode::AcquireWriteLockedFailed)
        } else if v == 3 {
            Some(ErrorCode::AcquireReadLockedFailed)
        } else if v == 4 {
            Some(ErrorCode::UserDatabaseDidNotMatch)
        } else if v == 5 {
            Some(ErrorCode::UserDatabaseInternalError)
        } else if v == 6 {
            Some(ErrorCode::SqlInternalError)
        } else if v == 7 {
            Some(ErrorCode::DatabaseConnectError)
        } else if v == 10 {
            Some(ErrorCode::UserNotLoginYet)
        } else if v == 11 {
            Some(ErrorCode::ReadCurrentIdFailed)
        } else if v == 12 {
            Some(ErrorCode::WriteCurrentIdFailed)
        } else if v == 20 {
            Some(ErrorCode::EmailIsEmpty)
        } else if v == 21 {
            Some(ErrorCode::EmailFormatInvalid)
        } else if v == 22 {
            Some(ErrorCode::EmailAlreadyExists)
        } else if v == 30 {
            Some(ErrorCode::PasswordIsEmpty)
        } else if v == 31 {
            Some(ErrorCode::PasswordTooLong)
        } else if v == 32 {
            Some(ErrorCode::PasswordContainsForbidCharacters)
        } else if v == 33 {
            Some(ErrorCode::PasswordFormatInvalid)
        } else if v == 34 {
            Some(ErrorCode::PasswordNotMatch)
        } else if v == 40 {
            Some(ErrorCode::UserNameTooLong)
        } else if v == 41 {
            Some(ErrorCode::UserNameContainsForbiddenCharacters)
        } else if v == 42 {
            Some(ErrorCode::UserNameIsEmpty)
        } else if v == 50 {
            Some(ErrorCode::UserWorkspaceInvalid)
        } else if v == 51 {
            Some(ErrorCode::UserIdInvalid)
        } else if v == 54 {
            Some(ErrorCode::UserTokenInvalid)
        } else if v == 55 {
            Some(ErrorCode::UserNotExist)
        } else if v == 60 {
            Some(ErrorCode::CreateDefaultWorkspaceFailed)
        } else if v == 61 {
            Some(ErrorCode::DefaultWorkspaceAlreadyExist)
        } else if v == 70 {
            Some(ErrorCode::WorkspaceNameInvalid)
        } else if v == 71 {
            Some(ErrorCode::WorkspaceDescInvalid)
        } else if v == 72 {
            Some(ErrorCode::UserIdIsEmpty)
        } else if v == 100 {
            Some(ErrorCode::ServerError)
        } else {
            None
        }
    }

    /// The fixed description of this code.
    pub fn to_string(&self) -> (r: String)
        ensures
            r@ == describe(*self),
    {
        match self {
            ErrorCode::Unknown => "Unknown".to_owned(),
            ErrorCode::UserDatabaseInitFailed => "Database init failed".to_owned(),
            ErrorCode::AcquireWriteLockedFailed => "Acquire database write lock failed".to_owned(),
            ErrorCode::AcquireReadLockedFailed => "Acquire database read lock failed".to_owned(),
            ErrorCode::UserDatabaseDidNotMatch => "Opening database is not belonging to the current user".to_owned(),
            ErrorCode::UserDatabaseInternalError => "Database internal error".to_owned(),
            ErrorCode::SqlInternalError => "Sql internal error".to_owned(),
            ErrorCode::DatabaseConnectError => "r2d2 connection error".to_owned(),
            ErrorCode::UserNotLoginYet => "User not login yet".to_owned(),
            ErrorCode::ReadCurrentIdFailed => "Get current id read lock failed".to_owned(),
            ErrorCode::WriteCurrentIdFailed => "Get current id write lock failed".to_owned(),
            ErrorCode::EmailIsEmpty => "Email can not be empty or whitespace".to_owned(),
            ErrorCode::EmailFormatInvalid => "Email format is not valid".to_owned(),
            ErrorCode::EmailAlreadyExists => "Email already exists".to_owned(),
            ErrorCode::PasswordIsEmpty => "Password can not be empty or whitespace".to_owned(),
            ErrorCode::PasswordTooLong => "Password format too long".to_owned(),
            ErrorCode::PasswordContainsForbidCharacters => "Password contains forbidden characters.".to_owned(),
            ErrorCode::PasswordFormatInvalid => "Password should contain a minimum of 6 characters with 1 special 1 letter and 1 numeric".to_owned(),
            ErrorCode::PasswordNotMatch => "Password not match".to_owned(),
            ErrorCode::UserNameTooLong => "User name is too long".to_owned(),
            ErrorCode::UserNameContainsForbiddenCharacters => "User name contain forbidden characters".to_owned(),
            ErrorCode::UserNameIsEmpty => "User name can not be empty or whitespace".to_owned(),
            ErrorCode::UserWorkspaceInvalid => "User workspace is invalid".to_owned(),
            ErrorCode::UserIdInvalid => "User id is invalid".to_owned(),
            ErrorCode::UserTokenInvalid => "User token is invalid".to_owned(),
            ErrorCode::UserNotExist => "User not exist".to_owned(),
            ErrorCode::CreateDefaultWorkspaceFailed => "Create user default workspace failed".to_owned(),
            ErrorCode::DefaultWorkspaceAlreadyExist => "User default workspace already exists".to_owned(),
            ErrorCode::WorkspaceNameInvalid => "Workspace name is invalid".to_owned(),
            ErrorCode::WorkspaceDescInvalid => "Workspace description is invalid".to_owned(),
            ErrorCode::UserIdIsEmpty => "User id can not be empty".to_owned(),
            ErrorCode::ServerError => "Server error".to_owned(),
        }
    }
}

impl Default for ErrorCode {
    /// The default code is the generic unknown code.
    fn default() -> (r: Self)
        ensures
            r == ErrorCode::Unknown,
    {
        ErrorCode::Unknown
    }
}

/// Every code's description is non-empty, the default included.
pub proof fn lemma_describe_nonempty(c: ErrorCode)
    ensures
        describe(c).len() > 0,
{
    match c {
        ErrorCode::Unknown => reveal_strlit("Unknown"),
        ErrorCode::UserDatabaseInitFailed => reveal_strlit("Database init failed"),
        ErrorCode::AcquireWriteLockedFailed => reveal_strlit("Acquire database write lock failed"),
        ErrorCode::AcquireReadLockedFailed => reveal_strlit("Acquire database read lock failed"),
        ErrorCode::UserDatabaseDidNotMatch => reveal_strlit("Opening database is not belonging to the current user"),
        ErrorCode::UserDatabaseInternalError => reveal_strlit("Database internal error"),
        ErrorCode::SqlInternalError => reveal_strlit("Sql internal error"),
        ErrorCode::DatabaseConnectError => reveal_strlit("r2d2 connection error"),
        ErrorCode::UserNotLoginYet => reveal_strlit("User not login yet"),
        ErrorCode::ReadCurrentIdFailed => reveal_strlit("Get current id read lock failed"),
        ErrorCode::WriteCurrentIdFailed => reveal_strlit("Get current id write lock failed"),
        ErrorCode::EmailIsEmpty => reveal_strlit("Email can not be empty or whitespace"),
        ErrorCode::EmailFormatInvalid => reveal_strlit("Email format is not valid"),
        ErrorCode::EmailAlreadyExists => reveal_strlit("Email already exists"),
        ErrorCode::PasswordIsEmpty => reveal_strlit("Password can not be empty or whitespace"),
        ErrorCode::PasswordTooLong => reveal_strlit("Password format too long"),
        ErrorCode::PasswordContainsForbidCharacters => reveal_strlit("Password contains forbidden characters."),
        ErrorCode::PasswordFormatInvalid => reveal_strlit("Password should contain a minimum of 6 characters with 1 special 1 letter and 1 numeric"),
        ErrorCode::PasswordNotMatch => reveal_strlit("Password not match"),
        ErrorCode::UserNameTooLong => reveal_strlit("User name is too long"),
        ErrorCode::UserNameContainsForbiddenCharacters => reveal_strlit("User name contain forbidden characters"),
        ErrorCode::UserNameIsEmpty => reveal_strlit("User name can not be empty or whitespace"),
        ErrorCode::UserWorkspaceInvalid => reveal_strlit("User workspace is invalid"),
        ErrorCode::UserIdInvalid => reveal_strlit("User id is invalid"),
        ErrorCode::UserTokenInvalid => reveal_strlit("User token is invalid"),
        ErrorCode::UserNotExist => reveal_strlit("User not exist"),
        ErrorCode::CreateDefaultWorkspaceFailed => reveal_strlit("Create user default workspace failed"),
        ErrorCode::DefaultWorkspaceAlreadyExist => reveal_strlit("User default workspace already exists"),
        ErrorCode::WorkspaceNameInvalid => reveal_strlit("Workspace name is invalid"),
        ErrorCode::WorkspaceDescInvalid => reveal_strlit("Workspace description is invalid"),
        ErrorCode::UserIdIsEmpty => reveal_strlit("User id can not be empty"),
        ErrorCode::ServerError => reveal_strlit("Server error"),
    }
}

/// The numeric assignment is injective: reading a code's value back yields
/// that code.
pub proof fn lemma_code_value_round_trip(c: ErrorCode)
    ensures
        spec_code_from_value(code_value(c)) == Some(c),
{
}

/// The mathematical content of a [`UserError`]: its code and the characters
/// of its message.
pub ghost struct UserErrorView {
    pub code: ErrorCode,
    pub msg: Seq<char>,
}

/// An application-level error: a stable code plus a free-text message.
///
/// The message may be empty; consumers then fall back to the code's fixed
/// description. Values are built once, via [`ErrorBuilder`] or one of the
/// conversion functions, and are immutable afterwards.
#[derive(Clone, Debug)]
pub struct UserError {
    pub code: ErrorCode,
    pub msg: String,
}

impl View for UserError {
    type V = UserErrorView;

    open spec fn view(&self) -> UserErrorView {
        UserErrorView { code: self.code, msg: self.msg@ }
    }
}

impl UserError {
    /// Pairs a code with a message, verbatim.
    pub fn new(code: ErrorCode, msg: &str) -> (r: Self)
        ensures
            r@.code == code,
            r@.msg == msg@,
    {
        Self { code, msg: msg.to_owned() }
    }
}

impl Default for UserError {
    /// The default error: the unknown code with an empty message.
    fn default() -> (r: Self)
        ensures
            r@.code == ErrorCode::Unknown,
            r@.msg == Seq::<char>::empty(),
    {
        Self { code: ErrorCode::Unknown, msg: String::new() }
    }
}

/// The view of an optional string.
pub open spec fn opt_text(o: Option<String>) -> Option<Seq<char>> {
    match o {
        Option::None => Option::None,
        Option::Some(s) => Option::Some(s@),
    }
}

/// How the final message of an error is resolved from a code, an optional
/// explicit message, and the optional rendering of an underlying cause:
/// the explicit message wins when non-empty; otherwise the cause's text is
/// taken; and if what was chosen is empty, the code's fixed description
/// stands in.
pub open spec fn final_message(
    code: ErrorCode,
    msg: Option<Seq<char>>,
    cause: Option<Seq<char>>,
) -> Seq<char> {
    let chosen = if msg matches Option::Some(m) && m.len() > 0 {
        msg->Some_0
    } else if cause matches Option::Some(c) {
        cause->Some_0
    } else {
        Seq::<char>::empty()
    };
    if chosen.len() == 0 {
        describe(code)
    } else {
        chosen
    }
}

/// Resolved messages are never empty: either a non-empty message or cause
/// was chosen, or the code's (non-empty) description stands in.
pub proof fn lemma_final_message_nonempty(
    code: ErrorCode,
    msg: Option<Seq<char>>,
    cause: Option<Seq<char>>,
)
    ensures
        final_message(code, msg, cause).len() > 0,
{
    lemma_describe_nonempty(code);
}

/// With no explicit message and no cause, the resolved message is the code's
/// fixed description.
pub proof fn lemma_build_default_message(code: ErrorCode, msg: Option<Seq<char>>)
    requires
        msg matches Option::Some(m) ==> m.len() == 0,
    ensures
        final_message(code, msg, Option::None) == describe(code),
{
}

/// A non-empty explicit message always wins, whatever the cause.
pub proof fn lemma_build_explicit_message_wins(
    code: ErrorCode,
    msg: Seq<char>,
    cause: Option<Seq<char>>,
)
    requires
        msg.len() > 0,
    ensures
        final_message(code, Option::Some(msg), cause) == msg,
{
}

/// With an empty explicit message, a non-empty cause's text is taken, not
/// the code's description.
pub proof fn lemma_build_cause_message(code: ErrorCode, msg: Option<Seq<char>>, cause: Seq<char>)
    requires
        msg matches Option::Some(m) ==> m.len() == 0,
        cause.len() > 0,
    ensures
        final_message(code, msg, Option::Some(cause)) == cause,
{
}

/// A transient, single-use helper that composes a code, an optional explicit
/// message, and an optional absorbed cause (held as its textual rendering)
/// into one [`UserError`].
pub struct ErrorBuilder {
    pub code: ErrorCode,
    pub msg: Option<String>,
    pub cause: Option<String>,
}

impl ErrorBuilder {
    /// Starts a builder for the given code.
    pub fn new(code: ErrorCode) -> (r: Self)
        ensures
            r.code == code,
            r.msg is None,
            r.cause is None,
    {
        Self { code, msg: Option::None, cause: Option::None }
    }

    /// Sets the explicit message.
    pub fn msg(self, msg: &str) -> (r: Self)
        ensures
            r.code == self.code,
            opt_text(r.msg) == Option::Some(msg@),
            r.cause == self.cause,
    {
        Self { msg: Option::Some(msg.to_owned()), ..self }
    }

    /// Absorbs an underlying cause, given by its textual rendering.
    pub fn error(self, cause: String) -> (r: Self)
        ensures
            r.code == self.code,
            r.msg == self.msg,
            opt_text(r.cause) == Option::Some(cause@),
    {
        Self { cause: Option::Some(cause), ..self }
    }

    /// Builds the error. The code is taken over exactly as supplied, never
    /// remapped; the message is resolved as [`final_message`] states.
    pub fn build(self) -> (r: UserError)
        ensures
            r@.code == self.code,
            r@.msg == final_message(self.code, opt_text(self.msg), opt_text(self.cause)),
    {
        let chosen: String = match self.msg {
            Option::Some(m) => {
                if m.as_str().is_empty() {
                    match self.cause {
                        Option::Some(c) => c,
                        Option::None => String::new(),
                    }
                } else {
                    m
                }
            },
            Option::None => {
                match self.cause {
                    Option::Some(c) => c,
                    Option::None => String::new(),
                }
            },
        };
        if chosen.as_str().is_empty() {
            UserError { code: self.code, msg: self.code.to_string() }
        } else {
            UserError { code: self.code, msg: chosen }
        }
    }
}

#[verifier::external_type_specification]
#[verifier::external_body]
pub struct ExConnectionPoolError(r2d2::Error);

/// Relies on `r2d2::Error`'s `Display` rendering: it always begins with the
/// fixed text "timed out waiting for connection", so it is never empty.
#[verifier::external_body]
fn connection_pool_error_text(error: &r2d2::Error) -> (r: String)
    ensures
        r@.len() > 0,
{
    format!("{}", error)
}

/// The closed error-code enumeration of the remote service, as this crate
/// models it: the remote collaborator reports one of these codes together
/// with a textual message.
#[derive(Clone, Copy, PartialEq, Eq, Structural, Debug)]
pub enum ServerErrorCode {
    InvalidToken,
    Unauthorized,
    PayloadOverflow,
    PayloadSerdeFail,
    PayloadUnexpectedNone,
    ParamsInvalid,
    ProtobufError,
    SerdeError,
    EmailAlreadyExists,
    PasswordNotMatch,
    ConnectRefused,
    ConnectTimeout,
    ConnectClose,
    ConnectCancel,
    SqlError,
    RecordNotFound,
    HttpError,
    InternalError,
}

/// An error reported by the remote service: its own code plus a message.
#[derive(Clone, Debug)]
pub struct ServerError {
    pub code: ServerErrorCode,
    pub msg: String,
}

/// The total translation table from remote-service codes to local codes.
pub open spec fn server_code_to_user_code(code: ServerErrorCode) -> ErrorCode {
    match code {
        ServerErrorCode::InvalidToken => ErrorCode::UserTokenInvalid,
        ServerErrorCode::Unauthorized => ErrorCode::UserTokenInvalid,
        ServerErrorCode::PayloadOverflow => ErrorCode::ServerError,
        ServerErrorCode::PayloadSerdeFail => ErrorCode::ServerError,
        ServerErrorCode::PayloadUnexpectedNone => ErrorCode::ServerError,
        ServerErrorCode::ParamsInvalid => ErrorCode::ServerError,
        ServerErrorCode::ProtobufError => ErrorCode::ServerError,
        ServerErrorCode::SerdeError => ErrorCode::ServerError,
        ServerErrorCode::EmailAlreadyExists => ErrorCode::ServerError,
        ServerErrorCode::PasswordNotMatch => ErrorCode::PasswordNotMatch,
        ServerErrorCode::ConnectRefused => ErrorCode::ServerError,
        ServerErrorCode::ConnectTimeout => ErrorCode::ServerError,
        ServerErrorCode::ConnectClose => ErrorCode::ServerError,
        ServerErrorCode::ConnectCancel => ErrorCode::ServerError,
        ServerErrorCode::SqlError => ErrorCode::ServerError,
        ServerErrorCode::RecordNotFound => ErrorCode::UserNotExist,
        ServerErrorCode::HttpError => ErrorCode::ServerError,
        ServerErrorCode::InternalError => ErrorCode::ServerError,
    }
}

/// Maps a remote-service code to the local code, per the translation table.
pub fn server_error_to_user_error(code: ServerErrorCode) -> (r: ErrorCode)
    ensures
        r == server_code_to_user_code(code),
{
    match code {
        ServerErrorCode::InvalidToken => ErrorCode::UserTokenInvalid,
        ServerErrorCode::Unauthorized => ErrorCode::UserTokenInvalid,
        ServerErrorCode::PayloadOverflow => ErrorCode::ServerError,
        ServerErrorCode::PayloadSerdeFail => ErrorCode::ServerError,
        ServerErrorCode::PayloadUnexpectedNone => ErrorCode::ServerError,
        ServerErrorCode::ParamsInvalid => ErrorCode::ServerError,
        ServerErrorCode::ProtobufError => ErrorCode::ServerError,
        ServerErrorCode::SerdeError => ErrorCode::ServerError,
        ServerErrorCode::EmailAlreadyExists => ErrorCode::ServerError,
        ServerErrorCode::PasswordNotMatch => ErrorCode::PasswordNotMatch,
        ServerErrorCode::ConnectRefused => ErrorCode::ServerError,
        ServerErrorCode::ConnectTimeout => ErrorCode::ServerError,
        ServerErrorCode::ConnectClose => ErrorCode::ServerError,
        ServerErrorCode::ConnectCancel => ErrorCode::ServerError,
        ServerErrorCode::SqlError => ErrorCode::ServerError,
        ServerErrorCode::RecordNotFound => ErrorCode::UserNotExist,
        ServerErrorCode::HttpError => ErrorCode::ServerError,
        ServerErrorCode::InternalError => ErrorCode::ServerError,
    }
}

/// The translation table in one statement: the four special remote codes go
/// to their dedicated local codes, and every other remote code goes to the
/// generic server-error code. No remote code is left unmapped.
pub proof fn lemma_server_code_translation(code: ServerErrorCode)
    ensures
        code == ServerErrorCode::InvalidToken ==> server_code_to_user_code(code)
            == ErrorCode::UserTokenInvalid,
        code == ServerErrorCode::Unauthorized ==> server_code_to_user_code(code)
            == ErrorCode::UserTokenInvalid,
        code == ServerErrorCode::PasswordNotMatch ==> server_code_to_user_code(code)
            == ErrorCode::PasswordNotMatch,
        code == ServerErrorCode::RecordNotFound ==> server_code_to_user_code(code)
            == ErrorCode::UserNotExist,
        code != ServerErrorCode::InvalidToken && code != ServerErrorCode::Unauthorized
            && code != ServerErrorCode::PasswordNotMatch && code != ServerErrorCode::RecordNotFound
            ==> server_code_to_user_code(code) == ErrorCode::ServerError,
{
}

impl UserError {
    /// Converts a persistence-layer failure, given by its textual rendering,
    /// onto the local database-internal code.
    pub fn from_database_error(cause: String) -> (r: UserError)
        ensures
            r@.code == ErrorCode::UserDatabaseInternalError,
            r@.msg == final_message(
                ErrorCode::UserDatabaseInternalError,
                Option::None,
                Option::Some(cause@),
            ),
    {
        ErrorBuilder::new(ErrorCode::UserDatabaseInternalError).error(cause).build()
    }

    /// Converts an SQL-layer failure, given by its textual rendering, onto
    /// the local SQL-internal code.
    pub fn from_sql_error(cause: String) -> (r: UserError)
        ensures
            r@.code == ErrorCode::SqlInternalError,
            r@.msg == final_message(ErrorCode::SqlInternalError, Option::None, Option::Some(cause@)),
    {
        ErrorBuilder::new(ErrorCode::SqlInternalError).error(cause).build()
    }

    /// Converts a connection-pool failure onto the local connection code.
    /// The pool's error renders to a non-empty text, which is absorbed as
    /// the cause, so the resulting message is that text.
    pub fn from_connection_pool_error(error: &r2d2::Error) -> (r: UserError)
        ensures
            r@.code == ErrorCode::DatabaseConnectError,
            r@.msg.len() > 0,
    {
        let text = connection_pool_error_text(error);
        proof {
            lemma_final_message_nonempty(
                ErrorCode::DatabaseConnectError,
                Option::None,
                Option::Some(text@),
            );
        }
        ErrorBuilder::new(ErrorCode::DatabaseConnectError).error(text).build()
    }

    /// Converts a remote-service error: its code runs through the translation
    /// table, and its message is absorbed as the cause.
    pub fn from_server_error(error: ServerError) -> (r: UserError)
        ensures
            r@.code == server_code_to_user_code(error.code),
            r@.msg == final_message(
                server_code_to_user_code(error.code),
                Option::None,
                Option::Some(error.msg@),
            ),
    {
        let code = server_error_to_user_error(error.code);
        ErrorBuilder::new(code).error(error.msg).build()
    }
}

} // verus!

