use vstd::prelude::*;

verus! {

/// The organisation record the repository feed reports: the login name and
/// blog address as byte strings, and the count of public repositories.
#[derive(Clone, Debug, PartialEq, Eq)]
pub struct GithubInfo {
    pub login: Vec<u8>,
    pub blog: Vec<u8>,
    pub public_repos: u32,
}

/// Why a fetched record could not be delivered.
#[derive(Clone, Copy, Debug, PartialEq, Eq)]
pub enum Error {
    /// The request itself failed.
    HttpRequestError,
    /// The response could not be read as the expected record.
    ConvertError,
}

} // verus!
