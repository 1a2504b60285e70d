//! What can go wrong, and the words for it.

use vstd::prelude::*;
use vstd::string::*;

use crate::metadata::Role;

verus! {

/// The reason given with a verification failure or a programming error.
#[derive(Debug, PartialEq, Eq)]
pub enum Message {
    /// The repository's latest root metadata is older than the trusted one.
    LatestRootOlder { latest: u32, trusted: u32 },
    /// The trusted snapshot metadata does not describe the targets metadata.
    TargetsNotDescribed,
    /// Root metadata was accepted without an update of the trusted root.
    NoUpdateOccurred,
    /// Any other reason, in words.
    Text(String),
}

/// Errors of the client and of the repositories and the verification that it runs on.
#[derive(Debug, PartialEq, Eq)]
pub enum Error {
    /// The thing asked for does not exist.
    NotFound,
    /// Trusted metadata of this role is needed first.
    MissingMetadata(Role),
    /// The metadata of this role has expired.
    ExpiredMetadata(Role),
    /// The metadata or target failed to verify.
    VerificationFailure(Message),
    /// The library is in a state that it should not be in.
    Programming(Message),
    /// None of the hashes given is of an algorithm that the client knows.
    NoSupportedHashAlgorithm,
    /// This is not a path that a repository may hold.
    IllegalPath(String),
    /// The metadata could not be encoded or decoded.
    Encoding(String),
    /// Reading or writing failed.
    Io(String),
    /// Any other failure of a repository.
    Opaque(String),
}

/// The decimal digit of value `d`.
pub open spec fn digit(d: nat) -> Seq<char> {
    seq![('0' as int + d) as char]
}

/// `n` written in decimal.
pub open spec fn decimal(n: nat) -> Seq<char>
    decreases n,
{
    if n < 10 {
        digit(n)
    } else {
        decimal(n / 10) + digit(n % 10)
    }
}

/// The decimal digit of value `d`.
fn write_digit(d: u32) -> (r: &'static str)
    requires
        d < 10,
    ensures
        r@ == digit(d as nat),
{
    proof {
        reveal_strlit("0");
        reveal_strlit("1");
        reveal_strlit("2");
        reveal_strlit("3");
        reveal_strlit("4");
        reveal_strlit("5");
        reveal_strlit("6");
        reveal_strlit("7");
        reveal_strlit("8");
        reveal_strlit("9");
    }
    let r = match d {
        0 => "0",
        1 => "1",
        2 => "2",
        3 => "3",
        4 => "4",
        5 => "5",
        6 => "6",
        7 => "7",
        8 => "8",
        _ => "9",
    };
    assert(r@ =~= digit(d as nat));
    r
}

/// Writes `n` in decimal.
pub fn write_decimal(n: u32) -> (r: String)
    ensures
        r@ == decimal(n as nat),
    decreases n,
{
    if n < 10 {
        write_digit(n).to_owned()
    } else {
        let mut r = write_decimal(n / 10);
        r.append(write_digit(n % 10));
        r
    }
}

impl Message {
    /// The words of the message.
    pub open spec fn words(self) -> Seq<char> {
        match self {
            Message::LatestRootOlder { latest, trusted } => {
                "Latest root version is lower than current root version: "@ + decimal(latest as nat)
                    + " < "@ + decimal(trusted as nat)
            },
            Message::TargetsNotDescribed => {
                "Snapshot metadata did not contain a description of the current targets metadata."@
            },
            Message::NoUpdateOccurred => {
                "TUF claimed no update occurred when one should have. This is a programming error. Please report this as a bug."@
            },
            Message::Text(text) => text@,
        }
    }

    /// The words of the message.
    pub fn text(&self) -> (r: String)
        ensures
            r@ == self.words(),
            self matches Message::Text(text) ==> r@ == text@,
    {
        match self {
            Message::LatestRootOlder { latest, trusted } => {
                let mut r = "Latest root version is lower than current root version: ".to_owned();
                r.append(write_decimal(*latest).as_str());
                r.append(" < ");
                r.append(write_decimal(*trusted).as_str());
                r
            },
            Message::TargetsNotDescribed => {
                "Snapshot metadata did not contain a description of the current targets metadata.".to_owned()
            },
            Message::NoUpdateOccurred => {
                "TUF claimed no update occurred when one should have. This is a programming error. Please report this as a bug.".to_owned()
            },
            Message::Text(text) => text.clone(),
        }
    }
}

} // verus!
