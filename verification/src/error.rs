//! The errors of the log and their wording.

use vstd::prelude::*;

verus! {

/// `std::io::Error`: what the operating system says of a failed call. Its content is opaque.
#[verifier::external_type_specification]
#[verifier::external_body]
pub struct ExIoError(std::io::Error);

/// Errors returned by `init` and `echo_syslog`.
#[derive(Debug)]
pub enum Error {
    /// Initialization was never attempted.
    NeverInitialized,
    /// Initialization has previously failed and can not be retried.
    Poisoned,
    /// Error while creating socket.
    Socket(std::io::Error),
    /// Error while attempting to connect socket.
    Connect(std::io::Error),
    /// There was an error using `open` to get the lowest file descriptor.
    GetLowestFd(std::io::Error),
    /// The guess of libc's file descriptor for the syslog connection was invalid.
    InvalidFd,
}

/// The text is a wording of the error: one that its `Display` may write. An error may have
/// several, as the operating system's wording depends on the locale.
pub open spec fn is_wording(error: &std::io::Error, text: String) -> bool {
    vstd::string::to_string_from_display_ensures(error, text)
}

impl Error {
    /// The wording of the error, given the wording of its cause.
    pub open spec fn message(self, cause: Seq<char>) -> Seq<char> {
        match self {
            Error::NeverInitialized => "initialization was never attempted"@,
            Error::Poisoned => "initialization previously failed and cannot be retried"@,
            Error::Socket(_) => "failed to create socket: "@ + cause,
            Error::Connect(_) => "failed to connect socket: "@ + cause,
            Error::GetLowestFd(_) => "failed to get lowest file descriptor: "@ + cause,
            Error::InvalidFd => "guess of fd for syslog connection was invalid"@,
        }
    }

    /// The wording of the error around the given wording of its cause. An error without a
    /// cause leaves the latter out.
    pub fn message_for(&self, cause: &str) -> (text: String)
        ensures
            text@ == self.message(cause@),
    {
        match self {
            Error::NeverInitialized => "initialization was never attempted".to_owned(),
            Error::Poisoned => {
                "initialization previously failed and cannot be retried".to_owned()
            },
            Error::Socket(_) => "failed to create socket: ".to_owned().concat(cause),
            Error::Connect(_) => "failed to connect socket: ".to_owned().concat(cause),
            Error::GetLowestFd(_) => {
                "failed to get lowest file descriptor: ".to_owned().concat(cause)
            },
            Error::InvalidFd => "guess of fd for syslog connection was invalid".to_owned(),
        }
    }

    /// The wording of the error, ending in that of its cause if it has one.
    pub fn to_string(&self) -> (text: String)
        ensures
            match self {
                Error::Socket(e) => exists|cause: String| #[trigger]
                    is_wording(e, cause) && text@ == self.message(cause@),
                Error::Connect(e) => exists|cause: String| #[trigger]
                    is_wording(e, cause) && text@ == self.message(cause@),
                Error::GetLowestFd(e) => exists|cause: String| #[trigger]
                    is_wording(e, cause) && text@ == self.message(cause@),
                _ => text@ == self.message(Seq::empty()),
            },
    {
        match self {
            Error::Socket(e) | Error::Connect(e) | Error::GetLowestFd(e) => {
                let cause: String = e.to_string();
                assert(is_wording(e, cause));
                self.message_for(cause.as_str())
            },
            _ => self.message_for(""),
        }
    }
}

/// The wording of an error ends in the whole wording of its cause, before which nothing depends
/// on the cause. An error without a cause is always worded the same.
pub proof fn law_message_ends_in_the_cause(error: Error, cause: Seq<char>)
    ensures
        error is Socket || error is Connect || error is GetLowestFd ==> error.message(cause)
            == error.message(Seq::empty()) + cause,
        error is NeverInitialized || error is Poisoned || error is InvalidFd ==> error.message(
            cause,
        ) == error.message(Seq::empty()),
{
    assert("failed to create socket: "@ + Seq::empty() =~= "failed to create socket: "@);
    assert("failed to connect socket: "@ + Seq::empty() =~= "failed to connect socket: "@);
    assert("failed to get lowest file descriptor: "@ + Seq::empty()
        =~= "failed to get lowest file descriptor: "@);
}

/// Errors of one kind differ in wording by their causes only.
pub proof fn law_kind_fixes_the_message(
    e: std::io::Error,
    other: std::io::Error,
    cause: Seq<char>,
)
    ensures
        Error::Socket(e).message(cause) == Error::Socket(other).message(cause),
        Error::Connect(e).message(cause) == Error::Connect(other).message(cause),
        Error::GetLowestFd(e).message(cause) == Error::GetLowestFd(other).message(cause),
{
}

/// A wording of a cause is what its `Display` writes, and all of that.
pub proof fn law_wording_is_what_display_writes(error: &std::io::Error, text: String)
    ensures
        is_wording(error, text) <==> vstd::string::to_string_from_display_ensures(error, text),
{
}

} // verus!
