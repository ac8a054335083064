//! What can go wrong in an authentication, and how it is reported.

use vstd::prelude::*;
use vstd::std_specs::convert::FromSpec;
use vstd::string::*;

use crate::text::{push_signed_decimal, signed_decimal};

verus! {

/// A result with its value and its error taken by their views.
pub open spec fn viewed<T: View, E: View>(r: Result<T, E>) -> Result<T::V, E::V> {
    match r {
        Ok(value) => Ok(value@),
        Err(error) => Err(error@),
    }
}

/// A failed file or process operation: whether something was not found, and its description.
#[derive(Debug)]
pub struct IoError {
    pub not_found: bool,
    pub message: String,
}

/// The model of an [`IoError`].
pub struct IoErrorView {
    pub not_found: bool,
    pub message: Seq<char>,
}

impl View for IoError {
    type V = IoErrorView;

    open spec fn view(&self) -> IoErrorView {
        IoErrorView { not_found: self.not_found, message: self.message@ }
    }
}

/// Why a setting could not be read.
#[derive(Debug)]
pub enum ConfigError {
    Io(IoError),
    MissingField(String),
    InvalidValueType(String),
}

/// The model of a [`ConfigError`].
pub enum ConfigErrorView {
    Io(IoErrorView),
    MissingField(Seq<char>),
    InvalidValueType(Seq<char>),
}

impl View for ConfigError {
    type V = ConfigErrorView;

    open spec fn view(&self) -> ConfigErrorView {
        match self {
            ConfigError::Io(err) => ConfigErrorView::Io(err@),
            ConfigError::MissingField(field) => ConfigErrorView::MissingField(field@),
            ConfigError::InvalidValueType(field) => ConfigErrorView::InvalidValueType(field@),
        }
    }
}

impl From<IoError> for ConfigError {
    fn from(err: IoError) -> (res: ConfigError) {
        ConfigError::Io(err)
    }
}

impl vstd::std_specs::convert::FromSpecImpl<IoError> for ConfigError {
    open spec fn obeys_from_spec() -> bool {
        true
    }

    open spec fn from_spec(err: IoError) -> ConfigError {
        ConfigError::Io(err)
    }
}

impl ConfigErrorView {
    /// The description of the error.
    pub open spec fn message(self) -> Seq<char> {
        match self {
            ConfigErrorView::Io(err) => err.message,
            ConfigErrorView::MissingField(field) => "field: '"@ + field + "' is not found"@,
            ConfigErrorView::InvalidValueType(field) => "field: '"@ + field
                + "' has an invalid value type"@,
        }
    }
}

impl ConfigError {
    /// Describes the error.
    pub fn message(&self) -> (out: String)
        ensures
            out@ == self@.message(),
    {
        match self {
            ConfigError::Io(err) => err.message.clone(),
            ConfigError::MissingField(field) => {
                let mut out: String = "field: '".to_owned();
                out.append(field.as_str());
                out.append("' is not found");
                out
            },
            ConfigError::InvalidValueType(field) => {
                let mut out: String = "field: '".to_owned();
                out.append(field.as_str());
                out.append("' has an invalid value type");
                out
            },
        }
    }
}

/// Why an authentication failed.
#[derive(Debug)]
pub enum HelloAuthenticationError {
    GetUserError(i32),
    ConfigError(ConfigError),
    PublicKeyFileError(IoError),
    Io(IoError),
    /// The public key could not be read; with the description of what is wrong with it.
    InvalidPublicKey(String),
    MalformedSignature,
    NonceError,
    AuthenticatorLaunchError(IoError),
    AuthenticatorConnectionError(IoError),
    AuthenticatorSignalled,
    HelloAuthenticationFail(String),
    SignAuthenticationFail,
}

/// The model of a [`HelloAuthenticationError`].
pub enum HelloAuthenticationErrorView {
    GetUserError(i32),
    ConfigError(ConfigErrorView),
    PublicKeyFileError(IoErrorView),
    Io(IoErrorView),
    InvalidPublicKey(Seq<char>),
    MalformedSignature,
    NonceError,
    AuthenticatorLaunchError(IoErrorView),
    AuthenticatorConnectionError(IoErrorView),
    AuthenticatorSignalled,
    HelloAuthenticationFail(Seq<char>),
    SignAuthenticationFail,
}

impl View for HelloAuthenticationError {
    type V = HelloAuthenticationErrorView;

    open spec fn view(&self) -> HelloAuthenticationErrorView {
        match self {
            HelloAuthenticationError::GetUserError(code) =>
                HelloAuthenticationErrorView::GetUserError(*code),
            HelloAuthenticationError::ConfigError(err) =>
                HelloAuthenticationErrorView::ConfigError(err@),
            HelloAuthenticationError::PublicKeyFileError(err) =>
                HelloAuthenticationErrorView::PublicKeyFileError(err@),
            HelloAuthenticationError::Io(err) => HelloAuthenticationErrorView::Io(err@),
            HelloAuthenticationError::InvalidPublicKey(text) =>
                HelloAuthenticationErrorView::InvalidPublicKey(text@),
            HelloAuthenticationError::MalformedSignature =>
                HelloAuthenticationErrorView::MalformedSignature,
            HelloAuthenticationError::NonceError => HelloAuthenticationErrorView::NonceError,
            HelloAuthenticationError::AuthenticatorLaunchError(err) =>
                HelloAuthenticationErrorView::AuthenticatorLaunchError(err@),
            HelloAuthenticationError::AuthenticatorConnectionError(err) =>
                HelloAuthenticationErrorView::AuthenticatorConnectionError(err@),
            HelloAuthenticationError::AuthenticatorSignalled =>
                HelloAuthenticationErrorView::AuthenticatorSignalled,
            HelloAuthenticationError::HelloAuthenticationFail(text) =>
                HelloAuthenticationErrorView::HelloAuthenticationFail(text@),
            HelloAuthenticationError::SignAuthenticationFail =>
                HelloAuthenticationErrorView::SignAuthenticationFail,
        }
    }
}

impl From<IoError> for HelloAuthenticationError {
    fn from(err: IoError) -> (res: HelloAuthenticationError) {
        HelloAuthenticationError::Io(err)
    }
}

impl vstd::std_specs::convert::FromSpecImpl<IoError> for HelloAuthenticationError {
    open spec fn obeys_from_spec() -> bool {
        true
    }

    open spec fn from_spec(err: IoError) -> HelloAuthenticationError {
        HelloAuthenticationError::Io(err)
    }
}

impl From<ConfigError> for HelloAuthenticationError {
    fn from(err: ConfigError) -> (res: HelloAuthenticationError) {
        HelloAuthenticationError::ConfigError(err)
    }
}

impl vstd::std_specs::convert::FromSpecImpl<ConfigError> for HelloAuthenticationError {
    open spec fn obeys_from_spec() -> bool {
        true
    }

    open spec fn from_spec(err: ConfigError) -> HelloAuthenticationError {
        HelloAuthenticationError::ConfigError(err)
    }
}

impl HelloAuthenticationErrorView {
    /// The description of the error.
    pub open spec fn message(self) -> Seq<char> {
        match self {
            HelloAuthenticationErrorView::ConfigError(err) => "config error; "@ + err.message(),
            HelloAuthenticationErrorView::PublicKeyFileError(err) => if err.not_found {
                "cannot find the credential public key for this user"@
            } else {
                err.message
            },
            HelloAuthenticationErrorView::Io(err) => err.message,
            HelloAuthenticationErrorView::GetUserError(code) =>
                "cannot determine the PAM user; pam_get_user returned "@ + signed_decimal(
                code as int,
            ),
            HelloAuthenticationErrorView::InvalidPublicKey(text) =>
                "the pem file of the public key is invalid; "@ + text,
            HelloAuthenticationErrorView::MalformedSignature =>
                "Windows Hello returned a malformed signature"@,
            HelloAuthenticationErrorView::NonceError =>
                "cannot obtain randomness from the OS for the challenge"@,
            HelloAuthenticationErrorView::AuthenticatorLaunchError(err) =>
                "cannot launch Windows Hello; "@ + err.message,
            HelloAuthenticationErrorView::AuthenticatorConnectionError(err) =>
                "cannot communicate with Windows Hello; "@ + err.message,
            HelloAuthenticationErrorView::AuthenticatorSignalled =>
                "internal error; AuthenticatorSignalled"@,
            HelloAuthenticationErrorView::HelloAuthenticationFail(text) =>
                "authentication failed; "@ + text,
            HelloAuthenticationErrorView::SignAuthenticationFail =>
                "the result of signature verification of the credential is failure"@,
        }
    }
}

/// Two pieces of text, one after the other.
fn text_with(lead: &str, rest: &str) -> (out: String)
    ensures
        out@ == lead@ + rest@,
{
    let mut out: String = lead.to_owned();
    out.append(rest);
    out
}

impl HelloAuthenticationError {
    /// Describes the error to the user.
    pub fn message(&self) -> (out: String)
        ensures
            out@ == self@.message(),
    {
        match self {
            HelloAuthenticationError::ConfigError(err) => text_with(
                "config error; ",
                err.message().as_str(),
            ),
            HelloAuthenticationError::PublicKeyFileError(err) => if err.not_found {
                "cannot find the credential public key for this user".to_owned()
            } else {
                err.message.clone()
            },
            HelloAuthenticationError::Io(err) => err.message.clone(),
            HelloAuthenticationError::GetUserError(code) => {
                let mut out: String =
                    "cannot determine the PAM user; pam_get_user returned ".to_owned();
                push_signed_decimal(&mut out, *code);
                out
            },
            HelloAuthenticationError::InvalidPublicKey(text) => text_with(
                "the pem file of the public key is invalid; ",
                text.as_str(),
            ),
            HelloAuthenticationError::MalformedSignature =>
                "Windows Hello returned a malformed signature".to_owned(),
            HelloAuthenticationError::NonceError =>
                "cannot obtain randomness from the OS for the challenge".to_owned(),
            HelloAuthenticationError::AuthenticatorLaunchError(err) => text_with(
                "cannot launch Windows Hello; ",
                err.message.as_str(),
            ),
            HelloAuthenticationError::AuthenticatorConnectionError(err) => text_with(
                "cannot communicate with Windows Hello; ",
                err.message.as_str(),
            ),
            HelloAuthenticationError::AuthenticatorSignalled =>
                "internal error; AuthenticatorSignalled".to_owned(),
            HelloAuthenticationError::HelloAuthenticationFail(text) => text_with(
                "authentication failed; ",
                text.as_str(),
            ),
            HelloAuthenticationError::SignAuthenticationFail =>
                "the result of signature verification of the credential is failure".to_owned(),
        }
    }
}

// ---- Laws ----

/// Each error about the settings names the setting, or is described as the failed operation was.
pub proof fn law_config_messages(error: IoErrorView, field: Seq<char>)
    ensures
        ConfigErrorView::Io(error).message() == error.message,
        ConfigErrorView::MissingField(field).message() == "field: '"@ + field + "' is not found"@,
        ConfigErrorView::InvalidValueType(field).message() == "field: '"@ + field
            + "' has an invalid value type"@,
{
}

/// What the user is told of each failure, with all that is known of its reason.
pub proof fn law_messages(
    code: i32,
    config: ConfigErrorView,
    io: IoErrorView,
    text: Seq<char>,
)
    ensures
        HelloAuthenticationErrorView::GetUserError(code).message()
            == "cannot determine the PAM user; pam_get_user returned "@ + signed_decimal(
            code as int,
        ),
        HelloAuthenticationErrorView::ConfigError(config).message() == "config error; "@
            + config.message(),
        io.not_found ==> HelloAuthenticationErrorView::PublicKeyFileError(io).message()
            == "cannot find the credential public key for this user"@,
        !io.not_found ==> HelloAuthenticationErrorView::PublicKeyFileError(io).message()
            == io.message,
        HelloAuthenticationErrorView::Io(io).message() == io.message,
        HelloAuthenticationErrorView::InvalidPublicKey(text).message()
            == "the pem file of the public key is invalid; "@ + text,
        HelloAuthenticationErrorView::MalformedSignature.message()
            == "Windows Hello returned a malformed signature"@,
        HelloAuthenticationErrorView::NonceError.message()
            == "cannot obtain randomness from the OS for the challenge"@,
        HelloAuthenticationErrorView::AuthenticatorLaunchError(io).message()
            == "cannot launch Windows Hello; "@ + io.message,
        HelloAuthenticationErrorView::AuthenticatorConnectionError(io).message()
            == "cannot communicate with Windows Hello; "@ + io.message,
        HelloAuthenticationErrorView::AuthenticatorSignalled.message()
            == "internal error; AuthenticatorSignalled"@,
        HelloAuthenticationErrorView::HelloAuthenticationFail(text).message()
            == "authentication failed; "@ + text,
        HelloAuthenticationErrorView::SignAuthenticationFail.message()
            == "the result of signature verification of the credential is failure"@,
{
}

/// A failed operation, and an error about the settings, becomes the error of the authentication
/// that carries it.
pub proof fn law_conversions(io: IoError, config: ConfigError)
    ensures
        <ConfigError as FromSpec<IoError>>::from_spec(io) == ConfigError::Io(io),
        <HelloAuthenticationError as FromSpec<IoError>>::from_spec(io)
            == HelloAuthenticationError::Io(io),
        <HelloAuthenticationError as FromSpec<ConfigError>>::from_spec(config)
            == HelloAuthenticationError::ConfigError(config),
{
}

/// A result keeps whether it succeeded, and its value or error, in its model.
pub proof fn law_viewed<T: View, E: View>(r: Result<T, E>)
    ensures
        r matches Ok(value) ==> viewed(r) == Ok::<T::V, E::V>(value@),
        r matches Err(error) ==> viewed(r) == Err::<T::V, E::V>(error@),
{
}


/// The model of an error is the same error, with all that it carries.
pub proof fn law_error_models(
    code: i32,
    io: IoError,
    config: ConfigError,
    text: String,
)
    ensures
        io@.not_found == io.not_found && io@.message == io.message@,
        ConfigError::Io(io)@ == ConfigErrorView::Io(io@),
        ConfigError::MissingField(text)@ == ConfigErrorView::MissingField(text@),
        ConfigError::InvalidValueType(text)@ == ConfigErrorView::InvalidValueType(text@),
        HelloAuthenticationError::GetUserError(code)@ == HelloAuthenticationErrorView::GetUserError(code),
        HelloAuthenticationError::ConfigError(config)@ == HelloAuthenticationErrorView::ConfigError(config@),
        HelloAuthenticationError::PublicKeyFileError(io)@ == HelloAuthenticationErrorView::PublicKeyFileError(io@),
        HelloAuthenticationError::Io(io)@ == HelloAuthenticationErrorView::Io(io@),
        HelloAuthenticationError::InvalidPublicKey(text)@ == HelloAuthenticationErrorView::InvalidPublicKey(text@),
        HelloAuthenticationError::AuthenticatorLaunchError(io)@ == HelloAuthenticationErrorView::AuthenticatorLaunchError(io@),
        HelloAuthenticationError::AuthenticatorConnectionError(io)@ == HelloAuthenticationErrorView::AuthenticatorConnectionError(io@),
        HelloAuthenticationError::HelloAuthenticationFail(text)@ == HelloAuthenticationErrorView::HelloAuthenticationFail(text@),
        HelloAuthenticationError::MalformedSignature@ == HelloAuthenticationErrorView::MalformedSignature,
        HelloAuthenticationError::NonceError@ == HelloAuthenticationErrorView::NonceError,
        HelloAuthenticationError::AuthenticatorSignalled@ == HelloAuthenticationErrorView::AuthenticatorSignalled,
        HelloAuthenticationError::SignAuthenticationFail@ == HelloAuthenticationErrorView::SignAuthenticationFail,
{
}

} // verus!
