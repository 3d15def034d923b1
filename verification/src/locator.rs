//! The locator: where the daemon's identity marker and its endpoint are.
//!
//! A value of the environment, when there is one, is the location as it
//! stands. Otherwise the file lies in the per-user data directory of the
//! application and is named after the application and its purpose. The
//! caller reads the environment and hands the value in.

use std::path::PathBuf;
use vstd::prelude::*;
use vstd::string::StringExecFns;
use crate::error::ClientError;

verus! {

/// The application's name.
pub const APP_NAME: &'static str = "blackfast";

/// The purpose of the file at which the daemon listens.
pub const SOCKET_PURPOSE: &'static str = "socket";

/// The purpose of the file that marks a started daemon.
pub const PID_PURPOSE: &'static str = "pid";

/// The environment variable that names the pipe on platforms with named pipes.
pub const PIPE_VARIABLE: &'static str = "BLACKFAST_PIPE_NAME";

/// The pipe at which the daemon listens unless the environment names another.
pub const DEFAULT_PIPE_NAME: &'static str = "\\\\.\\pipe\\blackfast";

/// `std::path::PathBuf`, carried through as it comes; nothing is known of
/// what it holds.
#[verifier::external_type_specification]
#[verifier::external_body]
pub struct ExPathBuf(PathBuf);

/// Where a file of the daemon is to be found.
#[derive(Debug, PartialEq, Eq)]
pub enum Location {
    /// The path that the environment gave, as it was given.
    Override(String),
    /// The file of this name in the per-user data directory.
    DataFile { directory: PathBuf, file_name: String },
}

/// A location with its texts as sequences of characters.
pub enum LocationView {
    Override(Seq<char>),
    DataFile { directory: PathBuf, file_name: Seq<char> },
}

impl View for Location {
    type V = LocationView;

    open spec fn view(&self) -> LocationView {
        match *self {
            Location::Override(path) => LocationView::Override(path@),
            Location::DataFile { directory, file_name } => LocationView::DataFile {
                directory,
                file_name: file_name@,
            },
        }
    }
}

/// The upper-case form that `str::to_uppercase` gives a text.
pub uninterp spec fn uppercase_of(text: Seq<char>) -> Seq<char>;

/// `str::to_uppercase`: the upper-case equivalent of the text as a new
/// string, a function of the text alone.
#[verifier::external_body]
fn uppercase(text: &str) -> (upper: String)
    ensures
        upper@ == uppercase_of(text@),
{
    text.to_uppercase()
}

/// `appdirs::user_data_dir` for an application without author, not roaming:
/// the per-user data directory of the application, or an error when the
/// platform cannot tell it. The result depends on the environment, so
/// nothing is claimed of it.
#[verifier::external_body]
fn user_data_root(app: &str) -> (root: Result<PathBuf, ()>) {
    appdirs::user_data_dir(Some(app), None, false)
}

/// The name of the environment variable that overrides a location: the
/// application's name and the purpose, both in upper case, joined by an
/// underscore.
pub open spec fn variable_name(app: Seq<char>, purpose: Seq<char>) -> Seq<char> {
    uppercase_of(app) + seq!['_'] + uppercase_of(purpose)
}

/// The name of a file in the data directory: the application's name and the
/// purpose, joined by a dot.
pub open spec fn file_name_of(app: Seq<char>, purpose: Seq<char>) -> Seq<char> {
    app + seq!['.'] + purpose
}

/// The name of the environment variable that overrides the location of the
/// file with this purpose.
pub fn override_variable(app: &str, purpose: &str) -> (name: String)
    ensures
        name@ == variable_name(app@, purpose@),
{
    let mut name = uppercase(app);
    proof {
        reveal_strlit("_");
    }
    name.append("_");
    let upper = uppercase(purpose);
    name.append(upper.as_str());
    name
}

/// The name of the file with this purpose in the data directory.
pub fn data_file_name(app: &str, purpose: &str) -> (name: String)
    ensures
        name@ == file_name_of(app@, purpose@),
{
    let mut name = String::from_str(app);
    proof {
        reveal_strlit(".");
    }
    name.append(".");
    name.append(purpose);
    name
}

/// The location of a file in the data directory, given what the platform
/// said of that directory: the file named after the application and the
/// purpose when the directory is known, and a locator error when it is not.
pub fn data_file(root: Result<PathBuf, ()>, app: &str, purpose: &str) -> (result: Result<
    Location,
    ClientError,
>)
    ensures
        match root {
            Ok(directory) => result matches Ok(location) && location@ == (LocationView::DataFile {
                directory,
                file_name: file_name_of(app@, purpose@),
            }),
            Err(_) => result == Err::<Location, ClientError>(ClientError::LocatorError),
        },
{
    match root {
        Ok(directory) => Ok(Location::DataFile { directory, file_name: data_file_name(app, purpose) }),
        Err(_) => Err(ClientError::LocatorError),
    }
}

/// Resolves the file of an application with the given purpose. `overriding`
/// is the value of the variable `override_variable(name, ext)`, if it is
/// set. With a value, the location is that value, and the data directory is
/// not asked for. Without one, the location is the file in the per-user data
/// directory; this fails, with a locator error and in no other way, when the
/// platform cannot tell that directory.
pub fn get_env_or_user_data_dir(name: &str, ext: &str, overriding: Option<String>) -> (result:
    Result<Location, ClientError>)
    ensures
        overriding matches Some(value) ==> result matches Ok(location) && location@
            == LocationView::Override(value@),
        overriding is None ==> match result {
            Ok(location) => location@ matches LocationView::DataFile { file_name, .. }
                && file_name == file_name_of(name@, ext@),
            Err(error) => error == ClientError::LocatorError,
        },
{
    match overriding {
        Some(value) => Ok(Location::Override(value)),
        None => data_file(user_data_root(name), name, ext),
    }
}

/// The location of the endpoint at which the daemon listens. `overriding`
/// is the value of the variable `override_variable(APP_NAME, SOCKET_PURPOSE)`,
/// if it is set.
pub fn get_socket(overriding: Option<String>) -> (result: Result<Location, ClientError>)
    ensures
        overriding matches Some(value) ==> result matches Ok(location) && location@
            == LocationView::Override(value@),
        overriding is None ==> match result {
            Ok(location) => location@ matches LocationView::DataFile { file_name, .. }
                && file_name == file_name_of(APP_NAME@, SOCKET_PURPOSE@),
            Err(error) => error == ClientError::LocatorError,
        },
{
    get_env_or_user_data_dir(APP_NAME, SOCKET_PURPOSE, overriding)
}

/// The location of the identity marker. `overriding` is the value of the
/// variable `override_variable(APP_NAME, PID_PURPOSE)`, if it is set.
pub fn get_pidfile(overriding: Option<String>) -> (result: Result<Location, ClientError>)
    ensures
        overriding matches Some(value) ==> result matches Ok(location) && location@
            == LocationView::Override(value@),
        overriding is None ==> match result {
            Ok(location) => location@ matches LocationView::DataFile { file_name, .. }
                && file_name == file_name_of(APP_NAME@, PID_PURPOSE@),
            Err(error) => error == ClientError::LocatorError,
        },
{
    get_env_or_user_data_dir(APP_NAME, PID_PURPOSE, overriding)
}

/// The name of the pipe at which the daemon listens. `overriding` is the
/// value of the variable `PIPE_VARIABLE`, if it is set.
pub fn get_pipe_name(overriding: Option<String>) -> (name: String)
    ensures
        name@ == (match overriding {
            Some(value) => value@,
            None => DEFAULT_PIPE_NAME@,
        }),
{
    match overriding {
        Some(value) => value,
        None => String::from_str(DEFAULT_PIPE_NAME),
    }
}

} // verus!
