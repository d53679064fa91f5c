//! The store interface, its errors, and what its operations mean for the
//! sequence of headers that a store holds.

use crate::header::BlockHeader;
use vstd::prelude::*;
use vstd::string::StringExecFns;

verus! {

/// Position of a header in the chain; the genesis header has height zero.
pub type Height = u64;

/// `std::io::Error`, carried through as an opaque value.
#[verifier::external_type_specification]
#[verifier::external_body]
pub struct ExIoError(std::io::Error);

/// A failure of a store operation.
#[derive(Debug)]
pub enum Error {
    /// The underlying storage medium failed.
    Io(std::io::Error),
    /// The bytes at hand do not hold a block header.
    Decoding,
    /// The stored data is not a whole number of records.
    Corruption,
    /// No header is stored at the requested height.
    NotFound,
}

impl Error {
    /// The text of the error, for a reader: a fixed line for each kind, and
    /// for a failure of the storage medium the line `i/o error: ` followed
    /// by what that failure displays.
    pub fn message(&self) -> (text: String)
        ensures
            self is Decoding ==> text@ == "error decoding block"@,
            self is Corruption ==> text@ == "error: the store data is corrupt"@,
            self is NotFound ==> text@ == "error: no header at this height"@,
            self matches Error::Io(err) ==> exists|detail: String|
                #[trigger] vstd::string::to_string_from_display_ensures(err, detail) && text@
                    == "i/o error: "@ + detail@,
    {
        match self {
            Error::Io(err) => {
                let detail = err.to_string();
                let text = String::from_str("i/o error: ").concat(detail.as_str());
                assert(vstd::string::to_string_from_display_ensures(err, detail) && text@
                    == "i/o error: "@ + detail@);
                text
            },
            Error::Decoding => String::from_str("error decoding block"),
            Error::Corruption => String::from_str("error: the store data is corrupt"),
            Error::NotFound => String::from_str("error: no header at this height"),
        }
    }
}

impl From<std::io::Error> for Error {
    /// An I/O failure as a store error.
    fn from(err: std::io::Error) -> (r: Error) {
        Error::Io(err)
    }
}

impl vstd::std_specs::convert::FromSpecImpl<std::io::Error> for Error {
    open spec fn obeys_from_spec() -> bool {
        true
    }

    open spec fn from_spec(err: std::io::Error) -> Error {
        Error::Io(err)
    }
}

/// One step of a replay: a height with its header, or the failure that ends
/// the replay.
pub type Item = Result<(Height, BlockHeader), Error>;

/// The header at `height` among `headers`, or `NotFound` past the tip.
pub open spec fn lookup(headers: Seq<BlockHeader>, height: Height) -> Result<BlockHeader, Error> {
    if height < headers.len() {
        Ok(headers[height as int])
    } else {
        Err(Error::NotFound)
    }
}

/// The height of the last of `headers`, or `NotFound` when there is none.
pub open spec fn tip(headers: Seq<BlockHeader>) -> Result<Height, Error> {
    if 0 < headers.len() <= u64::MAX + 1 {
        Ok((headers.len() - 1) as Height)
    } else {
        Err(Error::NotFound)
    }
}

/// The headers after `batch` was put behind them.
pub open spec fn appended(headers: Seq<BlockHeader>, batch: Seq<BlockHeader>) -> Seq<BlockHeader> {
    headers + batch
}

/// The headers after a rollback to `height`: those at `height` and below.
pub open spec fn rolled_back(headers: Seq<BlockHeader>, height: Height) -> Seq<BlockHeader> {
    headers.take(height + 1)
}

/// The number of headers, or `Corruption` when the representation is not a
/// whole number of records.
pub open spec fn count(headers: Seq<BlockHeader>, intact: bool) -> Result<usize, Error> {
    if intact && headers.len() <= usize::MAX {
        Ok(headers.len() as usize)
    } else {
        Err(Error::Corruption)
    }
}

/// The full replay of a store: every header with its height, in ascending
/// order, closed by a `Corruption` failure when a partial record trails.
pub open spec fn replay(headers: Seq<BlockHeader>, intact: bool) -> Seq<Item> {
    Seq::new(
        headers.len() + if intact { 0nat } else { 1nat },
        |i: int|
            if i < headers.len() {
                Ok((i as Height, headers[i]))
            } else {
                Err(Error::Corruption)
            },
    )
}

/// Append correctness: after a batch was put into a store that held the
/// genesis header alone, the tip is the size of the batch, and each header
/// of the batch is found at its place behind the genesis header.
pub proof fn lemma_put_then_get(genesis: BlockHeader, batch: Seq<BlockHeader>, i: Height)
    requires
        batch.len() <= u64::MAX,
        1 <= i <= batch.len(),
    ensures
        tip(appended(seq![genesis], batch)) == Ok::<Height, Error>(batch.len() as Height),
        lookup(appended(seq![genesis], batch), 0) == Ok::<BlockHeader, Error>(genesis),
        lookup(appended(seq![genesis], batch), i) == Ok::<BlockHeader, Error>(batch[i - 1]),
{
}

/// Truncation: after a rollback to `height`, every header at `height` or
/// below is found as before, and every height above it is not found.
pub proof fn lemma_rollback_then_get(headers: Seq<BlockHeader>, height: Height, i: Height)
    requires
        height < headers.len(),
    ensures
        i <= height ==> lookup(rolled_back(headers, height), i) == lookup(headers, i),
        i > height ==> lookup(rolled_back(headers, height), i) == Err::<BlockHeader, Error>(
            Error::NotFound,
        ),
        tip(rolled_back(headers, height)) == Ok::<Height, Error>(height),
{
}

/// Overwrite after rollback: a batch put after a rollback to `height` takes
/// the heights above `height`, whatever was stored there before, and leaves
/// the headers at `height` and below as they were.
pub proof fn lemma_rollback_then_put(
    headers: Seq<BlockHeader>,
    height: Height,
    batch: Seq<BlockHeader>,
    i: Height,
)
    requires
        height < headers.len(),
    ensures
        i <= height ==> lookup(appended(rolled_back(headers, height), batch), i) == lookup(
            headers,
            i,
        ),
        height < i <= height + batch.len() ==> lookup(
            appended(rolled_back(headers, height), batch),
            i,
        ) == Ok::<BlockHeader, Error>(batch[i - height - 1]),
        i > height + batch.len() ==> lookup(appended(rolled_back(headers, height), batch), i)
            == Err::<BlockHeader, Error>(Error::NotFound),
{
}

/// Count consistency: the count of a store is the number of heights at
/// which a header is found, so it grows by the size of each batch put and
/// falls to `height + 1` with each rollback to `height`.
pub proof fn lemma_count(headers: Seq<BlockHeader>, batch: Seq<BlockHeader>, height: Height)
    requires
        headers.len() + batch.len() <= usize::MAX,
    ensures
        forall|i: Height| lookup(headers, i) is Ok <==> i < headers.len(),
        count(headers, true) == Ok::<usize, Error>(headers.len() as usize),
        count(appended(headers, batch), true) == Ok::<usize, Error>(
            (headers.len() + batch.len()) as usize,
        ),
        height < headers.len() ==> count(rolled_back(headers, height), true) == Ok::<usize, Error>(
            (height + 1) as usize,
        ),
{
}

/// Full replay: the replay of a store has one item for each header, and the
/// item at each height is that height with the header found there.
pub proof fn lemma_replay(headers: Seq<BlockHeader>, i: Height)
    requires
        i < headers.len(),
    ensures
        replay(headers, true).len() == headers.len(),
        replay(headers, true)[i as int] matches Ok((height, header)) && height == i && lookup(
            headers,
            i,
        ) == Ok::<BlockHeader, Error>(header),
{
}

/// Whether `r` is what an operation owes, or a failure of the storage
/// medium. A store that has no medium to fail returns what is owed.
pub open spec fn answers<T>(r: Result<T, Error>, owed: Result<T, Error>) -> bool {
    r == owed || r matches Err(Error::Io(_))
}

/// Whether `items` is the replay of `headers` up to a height at which the
/// storage medium failed, closed by that failure.
pub open spec fn cut_short(items: Seq<Item>, headers: Seq<BlockHeader>) -> bool {
    &&& 0 < items.len() <= headers.len() + 1
    &&& items.last() matches Err(Error::Io(_))
    &&& items.drop_last() == replay(headers.take(items.len() - 1), true)
}

/// What a rollback to `height` returns: nothing to report when a header is
/// stored there, `NotFound` when `height` lies past the tip.
pub open spec fn rollback_result(headers: Seq<BlockHeader>, height: Height) -> Result<(), Error> {
    if height < headers.len() {
        Ok(())
    } else {
        Err(Error::NotFound)
    }
}

/// A store of consecutive block headers, indexed by height.
///
/// The contracts here hold of every store, also of one whose storage medium
/// can fail. The stores of this crate state more: they return exactly what
/// is owed.
pub trait Store {
    /// The headers held, by height.
    spec fn headers(&self) -> Seq<BlockHeader>;

    /// Whether the underlying representation is a whole number of records.
    spec fn intact(&self) -> bool;

    /// Get the genesis header.
    fn genesis(&self) -> (r: Result<BlockHeader, Error>)
        ensures
            answers(r, lookup(self.headers(), 0)),
    {
        self.get(0)
    }

    /// Append a batch of consecutive headers to the end of the chain, and
    /// return the height of the new tip. When the storage medium fails, a
    /// part of the batch may have been appended all the same.
    fn put(&mut self, headers: Vec<BlockHeader>) -> (r: Result<Height, Error>)
        ensures
            answers(r, tip(final(self).headers())),
            final(self).headers().take(old(self).headers().len() as int) == old(self).headers(),
            final(self).headers().len() <= old(self).headers().len() + headers@.len(),
            !(r matches Err(Error::Io(_))) ==> final(self).headers().len() == old(
                self,
            ).headers().len() + headers@.len(),
            !(r matches Err(Error::Io(_))) ==> final(self).intact() == old(self).intact(),
            !(r matches Err(Error::Io(_))) && old(self).intact() ==> final(self).headers()
                == appended(old(self).headers(), headers@),
    ;

    /// Get the header at the given height.
    fn get(&self, height: Height) -> (r: Result<BlockHeader, Error>)
        ensures
            answers(r, lookup(self.headers(), height)),
    ;

    /// Roll the chain back to the given height, dropping every header above
    /// it. A height past the tip is refused, and a rollback that fails
    /// leaves the headers as they were.
    fn rollback(&mut self, height: Height) -> (r: Result<(), Error>)
        ensures
            answers(r, rollback_result(old(self).headers(), height)),
            r is Ok ==> final(self).headers() == rolled_back(old(self).headers(), height),
            r is Ok ==> final(self).intact(),
            r is Err ==> final(self).headers() == old(self).headers(),
            r is Err ==> final(self).intact() == old(self).intact(),
    ;

    /// Make every earlier change durable. The headers stay as they are.
    fn sync(&mut self) -> (r: Result<(), Error>)
        ensures
            answers(r, Ok(())),
            final(self).headers() == old(self).headers(),
            final(self).intact() == old(self).intact(),
    ;

    /// Replay all headers in the store, from the genesis header up.
    fn iter(&self) -> (items: Vec<Item>)
        ensures
            items@ == replay(self.headers(), self.intact()) || cut_short(items@, self.headers()),
    ;

    /// Return the number of headers in the store.
    fn len(&self) -> (r: Result<usize, Error>)
        ensures
            answers(r, count(self.headers(), self.intact())),
    ;
}

} // verus!
