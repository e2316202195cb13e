//! The git configuration as a key-value store: the outside types, the
//! lookups, and the reading of their outcomes.
//!
//! A lookup has one of three outcomes: the key is present and its value
//! could be read, the key is absent, or the value could not be read. The
//! store reports the second as an error whose code says "not found", and the
//! third as any other error.

use vstd::prelude::*;
use vstd::string::StringExecFns;
use git2::Config as GitConfig;
use crate::config::{Lookup, Setting};

verus! {

/// A git configuration, as the `git2` crate holds it. Nothing of what it
/// holds is visible here.
#[verifier::external_type_specification]
#[verifier::external_body]
pub struct ExGitConfig(GitConfig);

/// The error of a `git2` call. Its code and its message are read through
/// [`error_is_not_found`] and [`error_message`].
#[verifier::external_type_specification]
#[verifier::external_body]
pub struct ExGitError(git2::Error);

/// `git2::Config::get_bool` looks a key up and reads its value as a boolean.
/// The outcome depends on what the store holds: nothing is claimed of it.
pub assume_specification[ GitConfig::get_bool ](store: &GitConfig, name: &str) -> (r: Result<
    bool,
    git2::Error,
>)
;

/// `git2::Config::get_i64` looks a key up and reads its value as an integer.
/// The outcome depends on what the store holds: nothing is claimed of it.
pub assume_specification[ GitConfig::get_i64 ](store: &GitConfig, name: &str) -> (r: Result<
    i64,
    git2::Error,
>)
;

/// `git2::Config::get_str` looks a key up and hands its value out as text.
/// The outcome depends on what the store holds: nothing is claimed of it.
pub assume_specification<'a>[ GitConfig::get_str ](store: &'a GitConfig, name: &str) -> (r:
    Result<&'a str, git2::Error>)
;

/// Whether the code of a `git2` error, as `git2::Error::code` gives it, is
/// `git2::ErrorCode::NotFound`.
pub uninterp spec fn error_is_not_found(error: git2::Error) -> bool;

/// The message of a `git2` error, as `git2::Error::message` gives it.
pub uninterp spec fn error_message(error: git2::Error) -> Seq<char>;

/// Calls `git2::Error::code` and tells whether the code is
/// `git2::ErrorCode::NotFound`. The contract only names the answer.
#[verifier::external_body]
fn is_not_found(error: &git2::Error) -> (r: bool)
    ensures
        r == error_is_not_found(*error),
{
    matches!(error.code(), git2::ErrorCode::NotFound)
}

/// Calls `git2::Error::message` and copies the text. The contract only
/// names the text.
#[verifier::external_body]
fn message_of(error: &git2::Error) -> (text: String)
    ensures
        text@ == error_message(*error),
{
    error.message().to_string()
}

/// Turns the error that says "not found" into the absence of a value, and
/// leaves every other outcome as it is.
pub fn map_git2_not_found_to_none<E>(config_result: Result<E, git2::Error>) -> (r: Result<
    Option<E>,
    git2::Error,
>)
    ensures
        r == match config_result {
            Ok(value) => Ok::<Option<E>, git2::Error>(Some(value)),
            Err(error) => if error_is_not_found(error) {
                Ok(None)
            } else {
                Err(error)
            },
        },
{
    match config_result {
        Ok(value) => Ok(Some(value)),
        Err(error) => if is_not_found(&error) {
            Ok(None)
        } else {
            Err(error)
        },
    }
}

/// The three-way reading of a lookup: absent where the error says "not
/// found", malformed with the error's message on any other error.
pub open spec fn setting_view<V>(found: Result<V, git2::Error>) -> Lookup<V> {
    match found {
        Ok(value) => Lookup::Present(value),
        Err(error) => if error_is_not_found(error) {
            Lookup::Absent
        } else {
            Lookup::Malformed(error_message(error))
        },
    }
}

/// Reads the outcome of a lookup as a setting.
pub fn setting_of<T: View>(found: Result<T, git2::Error>) -> (setting: Setting<T>)
    ensures
        setting@ == setting_view(
            match found {
                Ok(value) => Ok::<T::V, git2::Error>(value@),
                Err(error) => Err(error),
            },
        ),
{
    match map_git2_not_found_to_none(found) {
        Ok(Some(value)) => Setting::Present(value),
        Ok(None) => Setting::Absent,
        Err(error) => Setting::Malformed(message_of(&error)),
    }
}

/// Reads the outcome of a text lookup as a setting that owns its text.
pub fn text_setting_of(found: Result<&str, git2::Error>) -> (setting: Setting<String>)
    ensures
        setting@ == setting_view(
            match found {
                Ok(value) => Ok::<Seq<char>, git2::Error>(value@),
                Err(error) => Err(error),
            },
        ),
{
    match map_git2_not_found_to_none(found) {
        Ok(Some(value)) => Setting::Present(String::from_str(value)),
        Ok(None) => Setting::Absent,
        Err(error) => Setting::Malformed(message_of(&error)),
    }
}

} // verus!
