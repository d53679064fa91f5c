//! Events and errors of the tracking of transactions sent to the network.

use vstd::prelude::*;
use vstd::string::StringExecFns;

verus! {

/// The status of a transaction.
#[derive(Clone, Copy, Debug, PartialEq, Eq)]
pub enum Event {
    /// The transaction was sent to one or more peers on the network, and is
    /// unconfirmed.
    Pending {
        /// Number of announcements of this transaction from other peers.
        announcements: usize,
        /// Transaction hash.
        txid: [u8; 32],
    },
    /// The transaction has been accepted by one or more peers on the network.
    Accepted {
        /// Number of peers that our transaction data was sent to.
        confirmations: usize,
        /// Transaction hash.
        txid: [u8; 32],
    },
}

/// Transaction related error.
#[derive(Clone, Copy, Debug, PartialEq, Eq)]
pub enum Error {
    /// Error due to a poisoned lock.
    Lock,
    /// Error due to unavailable relay peers.
    RelayPeer,
    /// Transaction not in store.
    NotFound,
}

/// Transaction status event.
pub trait Events {
    /// Emit a transaction-related event.
    fn event(&self, event: Event);
}

/// The character of a digit below sixteen: `0` to `9`, then `a` to `f`.
pub open spec fn digit(d: int) -> char {
    if d < 10 {
        (48 + d) as char
    } else {
        (87 + d) as char
    }
}

/// The decimal numeral of `n`, without leading zeros.
pub open spec fn decimal(n: nat) -> Seq<char>
    decreases n,
{
    if n < 10 {
        seq![digit(n as int)]
    } else {
        decimal(n / 10).push(digit((n % 10) as int))
    }
}

/// The text of a hash: two lower-case hexadecimal digits for each byte, the
/// last byte first.
pub open spec fn hex_reversed(bytes: Seq<u8>) -> Seq<char> {
    Seq::new(
        2 * bytes.len(),
        |k: int|
            if k % 2 == 0 {
                digit(bytes[bytes.len() - 1 - k / 2] as int / 16)
            } else {
                digit(bytes[bytes.len() - 1 - k / 2] as int % 16)
            },
    )
}

/// Calls `to_string` on the `bitcoin::Txid` with the inner bytes `txid`.
/// Trusted: a transaction ID is displayed as the lower-case hexadecimal of
/// its bytes in reverse order.
#[verifier::external_body]
fn txid_text(txid: &[u8; 32]) -> (text: String)
    ensures
        text@ == hex_reversed(txid@),
{
    <bitcoin::Txid as bitcoin::hashes::Hash>::from_inner(*txid).to_string()
}

/// The one-character text of a decimal digit.
fn digit_text(d: usize) -> (text: &'static str)
    requires
        d < 10,
    ensures
        text@ == seq![digit(d as int)],
{
    proof {
        reveal_strlit("0");
        reveal_strlit("1");
        reveal_strlit("2");
        reveal_strlit("3");
        reveal_strlit("4");
        reveal_strlit("5");
        reveal_strlit("6");
        reveal_strlit("7");
        reveal_strlit("8");
        reveal_strlit("9");
    }
    let text = match d {
        0 => "0",
        1 => "1",
        2 => "2",
        3 => "3",
        4 => "4",
        5 => "5",
        6 => "6",
        7 => "7",
        8 => "8",
        _ => "9",
    };
    assert(text@ =~= seq![digit(d as int)]);
    text
}

/// Write `n` as a decimal numeral.
pub fn decimal_text(n: usize) -> (text: String)
    ensures
        text@ == decimal(n as nat),
    decreases n,
{
    if n < 10 {
        String::from_str(digit_text(n))
    } else {
        let text = decimal_text(n / 10).concat(digit_text(n % 10));
        assert(text@ =~= decimal(n as nat));
        text
    }
}

impl Error {
    /// The text of the error, for a reader.
    pub fn message(&self) -> (text: String)
        ensures
            self is Lock ==> text@ == "Poisonsed read/write lock"@,
            self is RelayPeer ==> text@ == "Zero connected relay peers"@,
            self is NotFound ==> text@ == "Transaction not stored to store"@,
    {
        match self {
            Error::Lock => String::from_str("Poisonsed read/write lock"),
            Error::RelayPeer => String::from_str("Zero connected relay peers"),
            Error::NotFound => String::from_str("Transaction not stored to store"),
        }
    }
}

impl Event {
    /// What `message` returns for this event.
    pub open spec fn text(self) -> Seq<char> {
        match self {
            Event::Pending { announcements, txid } => "Pending transaction ID "@ + hex_reversed(
                txid@,
            ) + " broadcasted to "@ + decimal(announcements as nat) + " peers"@,
            Event::Accepted { confirmations, txid } => "Transaction with ID "@ + decimal(
                confirmations as nat,
            ) + " sent to "@ + hex_reversed(txid@) + " peers"@,
        }
    }

    /// The text of the event, for a reader.
    pub fn message(&self) -> (text: String)
        ensures
            text@ == self.text(),
    {
        match self {
            Event::Pending { announcements, txid } => {
                String::from_str("Pending transaction ID ").concat(txid_text(txid).as_str()).concat(
                    " broadcasted to ",
                ).concat(decimal_text(*announcements).as_str()).concat(" peers")
            },
            Event::Accepted { confirmations, txid } => {
                String::from_str("Transaction with ID ").concat(
                    decimal_text(*confirmations).as_str(),
                ).concat(" sent to ").concat(txid_text(txid).as_str()).concat(" peers")
            },
        }
    }
}

} // verus!
