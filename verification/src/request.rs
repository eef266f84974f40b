//! What a caller asks for, and the check that it is complete.

use vstd::prelude::*;

verus! {

/// Account name and access key of the storage account. Both are opaque to
/// this crate: it only checks that they are present.
#[derive(Debug, PartialEq, Eq)]
pub struct Credentials {
    pub account: String,
    pub access_key: String,
}

/// One upload run: every regular file directly inside `source_directory`
/// goes to `container_name` under `destination_prefix`.
#[derive(Debug, PartialEq, Eq)]
pub struct UploadRequest {
    pub source_directory: String,
    pub destination_prefix: String,
    pub container_name: String,
    pub credentials: Credentials,
}

/// Mathematical value of an [`UploadRequest`].
pub struct RequestView {
    pub source_directory: Seq<char>,
    pub destination_prefix: Seq<char>,
    pub container_name: Seq<char>,
    pub account: Seq<char>,
    pub access_key: Seq<char>,
}

impl View for UploadRequest {
    type V = RequestView;

    open spec fn view(&self) -> RequestView {
        RequestView {
            source_directory: self.source_directory@,
            destination_prefix: self.destination_prefix@,
            container_name: self.container_name@,
            account: self.credentials.account@,
            access_key: self.credentials.access_key@,
        }
    }
}

/// A parameter of the request, as named in a validation error.
#[derive(Clone, Copy, Debug, PartialEq, Eq, Structural)]
pub enum Field {
    Container,
    SourceDirectory,
    DestinationPrefix,
    Account,
    AccessKey,
}

/// What the caller found at the path of the source directory.
#[derive(Clone, Copy, Debug, PartialEq, Eq, Structural)]
pub enum SourceKind {
    /// Nothing exists at the path.
    Missing,
    /// Something exists there, but it is not a directory.
    NotDirectory,
    Directory,
}

/// The first parameter that is empty, in the order container, source
/// directory, destination prefix, account, access key.
pub open spec fn first_empty_field(r: RequestView) -> Option<Field> {
    if r.container_name.len() == 0 {
        Some(Field::Container)
    } else if r.source_directory.len() == 0 {
        Some(Field::SourceDirectory)
    } else if r.destination_prefix.len() == 0 {
        Some(Field::DestinationPrefix)
    } else if r.account.len() == 0 {
        Some(Field::Account)
    } else if r.access_key.len() == 0 {
        Some(Field::AccessKey)
    } else {
        None
    }
}

/// A request is complete when no parameter is empty.
pub open spec fn complete(r: RequestView) -> bool {
    &&& r.container_name.len() > 0
    &&& r.source_directory.len() > 0
    &&& r.destination_prefix.len() > 0
    &&& r.account.len() > 0
    &&& r.access_key.len() > 0
}

impl UploadRequest {
    /// Checks that every parameter is present. Reads nothing but the request.
    pub fn validate(&self) -> (r: Result<(), Field>)
        ensures
            r is Ok <==> complete(self@),
            r == match first_empty_field(self@) {
                Some(field) => Err::<(), Field>(field),
                None => Ok(()),
            },
    {
        if self.container_name.as_str().is_empty() {
            Err(Field::Container)
        } else if self.source_directory.as_str().is_empty() {
            Err(Field::SourceDirectory)
        } else if self.destination_prefix.as_str().is_empty() {
            Err(Field::DestinationPrefix)
        } else if self.credentials.account.as_str().is_empty() {
            Err(Field::Account)
        } else if self.credentials.access_key.as_str().is_empty() {
            Err(Field::AccessKey)
        } else {
            Ok(())
        }
    }
}

impl Clone for Credentials {
    fn clone(&self) -> (r: Credentials)
        ensures
            r == *self,
    {
        Credentials { account: self.account.clone(), access_key: self.access_key.clone() }
    }
}

impl Clone for UploadRequest {
    fn clone(&self) -> (r: UploadRequest)
        ensures
            r == *self,
    {
        UploadRequest {
            source_directory: self.source_directory.clone(),
            destination_prefix: self.destination_prefix.clone(),
            container_name: self.container_name.clone(),
            credentials: self.credentials.clone(),
        }
    }
}

} // verus!
