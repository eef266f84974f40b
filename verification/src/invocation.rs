//! A request from a batch invocation: three positional arguments, and the
//! credentials from the environment, both handed over by the caller.

use crate::request::{Credentials, Field, RequestView, UploadRequest};
use vstd::prelude::*;

verus! {

/// Why a batch invocation cannot be turned into a request: what it lacks.
#[derive(Clone, Copy, Debug, PartialEq, Eq, Structural)]
pub enum StartupError {
    /// The first positional argument, the container.
    NoContainer,
    /// The second positional argument, the source directory.
    NoSourceDirectory,
    /// The third positional argument, the destination prefix.
    NoDestinationPrefix,
    /// The environment variable for the account.
    NoAccount,
    /// The environment variable for the access key.
    NoAccessKey,
}

/// The first thing that an invocation lacks: of the arguments container,
/// source directory and destination prefix, in this order, then of the
/// variables for account and access key.
pub open spec fn first_lack(
    arguments: Seq<Seq<char>>,
    account: Option<Seq<char>>,
    access_key: Option<Seq<char>>,
) -> Option<StartupError> {
    if arguments.len() < 1 {
        Some(StartupError::NoContainer)
    } else if arguments.len() < 2 {
        Some(StartupError::NoSourceDirectory)
    } else if arguments.len() < 3 {
        Some(StartupError::NoDestinationPrefix)
    } else if account is None {
        Some(StartupError::NoAccount)
    } else if access_key is None {
        Some(StartupError::NoAccessKey)
    } else {
        None
    }
}

/// The request that a complete invocation stands for.
pub open spec fn invoked_request(
    arguments: Seq<Seq<char>>,
    account: Seq<char>,
    access_key: Seq<char>,
) -> RequestView {
    RequestView {
        container_name: arguments[0],
        source_directory: arguments[1],
        destination_prefix: arguments[2],
        account,
        access_key,
    }
}

/// The texts of a list of arguments, in the same order.
pub open spec fn argument_views(arguments: Seq<String>) -> Seq<Seq<char>> {
    arguments.map_values(|a: String| a@)
}

/// The message for a startup error.
pub open spec fn startup_text(error: StartupError) -> Seq<char> {
    match error {
        StartupError::NoContainer => "Missing argument <container>. Usage: <container> <folderPath> <uploadFolder>"@,
        StartupError::NoSourceDirectory => "Missing argument <folderPath>. Usage: <container> <folderPath> <uploadFolder>"@,
        StartupError::NoDestinationPrefix => "Missing argument <uploadFolder>. Usage: <container> <folderPath> <uploadFolder>"@,
        StartupError::NoAccount => "Missing environment variable STORAGE_ACCOUNT"@,
        StartupError::NoAccessKey => "Missing environment variable STORAGE_ACCESS_KEY"@,
    }
}

impl StartupError {
    /// The parameter that the invocation lacks.
    pub open spec fn spec_field(self) -> Field {
        match self {
            StartupError::NoContainer => Field::Container,
            StartupError::NoSourceDirectory => Field::SourceDirectory,
            StartupError::NoDestinationPrefix => Field::DestinationPrefix,
            StartupError::NoAccount => Field::Account,
            StartupError::NoAccessKey => Field::AccessKey,
        }
    }

    /// The parameter that the invocation lacks.
    #[verifier::when_used_as_spec(spec_field)]
    pub fn field(self) -> (field: Field)
        ensures
            field == self.spec_field(),
    {
        match self {
            StartupError::NoContainer => Field::Container,
            StartupError::NoSourceDirectory => Field::SourceDirectory,
            StartupError::NoDestinationPrefix => Field::DestinationPrefix,
            StartupError::NoAccount => Field::Account,
            StartupError::NoAccessKey => Field::AccessKey,
        }
    }

    /// The message for the error.
    pub fn message(self) -> (message: String)
        ensures
            message@ == startup_text(self),
    {
        match self {
            StartupError::NoContainer => String::from_str(
                "Missing argument <container>. Usage: <container> <folderPath> <uploadFolder>",
            ),
            StartupError::NoSourceDirectory => String::from_str(
                "Missing argument <folderPath>. Usage: <container> <folderPath> <uploadFolder>",
            ),
            StartupError::NoDestinationPrefix => String::from_str(
                "Missing argument <uploadFolder>. Usage: <container> <folderPath> <uploadFolder>",
            ),
            StartupError::NoAccount => String::from_str(
                "Missing environment variable STORAGE_ACCOUNT",
            ),
            StartupError::NoAccessKey => String::from_str(
                "Missing environment variable STORAGE_ACCESS_KEY",
            ),
        }
    }
}

/// Name of the environment variable that holds the account.
pub fn account_variable() -> (name: &'static str)
    ensures
        name@ == "STORAGE_ACCOUNT"@,
{
    "STORAGE_ACCOUNT"
}

/// Name of the environment variable that holds the access key.
pub fn access_key_variable() -> (name: &'static str)
    ensures
        name@ == "STORAGE_ACCESS_KEY"@,
{
    "STORAGE_ACCESS_KEY"
}

/// Puts a request together from the positional arguments of a batch
/// invocation (without the program's name) and from what the environment
/// holds for account and access key. Arguments after the third are not
/// looked at.
pub fn request_from_invocation(
    arguments: &Vec<String>,
    account: Option<String>,
    access_key: Option<String>,
) -> (r: Result<UploadRequest, StartupError>)
    ensures
        match first_lack(
            argument_views(arguments@),
            match account {
                Some(a) => Some(a@),
                None => None,
            },
            match access_key {
                Some(k) => Some(k@),
                None => None,
            },
        ) {
            Some(error) => r == Err::<UploadRequest, StartupError>(error),
            None => r is Ok && r->Ok_0@ == invoked_request(
                argument_views(arguments@),
                account->0@,
                access_key->0@,
            ),
        },
{
    if arguments.len() < 1 {
        return Err(StartupError::NoContainer);
    }
    if arguments.len() < 2 {
        return Err(StartupError::NoSourceDirectory);
    }
    if arguments.len() < 3 {
        return Err(StartupError::NoDestinationPrefix);
    }
    let account = match account {
        Some(account) => account,
        None => {
            return Err(StartupError::NoAccount);
        },
    };
    let access_key = match access_key {
        Some(access_key) => access_key,
        None => {
            return Err(StartupError::NoAccessKey);
        },
    };
    Ok(
        UploadRequest {
            container_name: arguments[0].clone(),
            source_directory: arguments[1].clone(),
            destination_prefix: arguments[2].clone(),
            credentials: Credentials { account, access_key },
        },
    )
}

} // verus!
