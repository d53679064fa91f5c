//! A store kept in a single binary file: concatenated 80-byte records and
//! nothing else, so that the size of the file alone gives the number of
//! headers. What is here works on the bytes of such a file.

use crate::header::{decode, encode, header_of, lemma_encoding_injective, lemma_encoding_len,
    BlockHeader, HEADER_SIZE};
use crate::store::{
    appended, count, lookup, replay, rollback_result, rolled_back, tip, Error, Height, Item, Store,
};
use vstd::prelude::*;
use vstd::slice::slice_subrange;

verus! {

/// The bytes of the record at `height` in a file that holds `bytes`.
pub open spec fn record_at(bytes: Seq<u8>, height: int) -> Seq<u8> {
    bytes.subrange(height * HEADER_SIZE, height * HEADER_SIZE + HEADER_SIZE)
}

/// The headers that a file with the content `bytes` holds: one for each
/// whole record.
pub open spec fn records(bytes: Seq<u8>) -> Seq<BlockHeader> {
    Seq::new((bytes.len() / HEADER_SIZE as nat) as nat, |i: int| header_of(record_at(bytes, i)))
}

/// Whether `bytes` is a whole number of records.
pub open spec fn whole(bytes: Seq<u8>) -> bool {
    bytes.len() % HEADER_SIZE as nat == 0
}

/// The records of `headers`, one behind the other.
pub open spec fn encoding_all(headers: Seq<BlockHeader>) -> Seq<u8> {
    Seq::new(
        headers.len() * HEADER_SIZE as nat,
        |k: int| headers[k / HEADER_SIZE as int].encoding()[k % HEADER_SIZE as int],
    )
}

/// The record of each header lies at its place among the records of all.
pub proof fn lemma_encoding_all_record(headers: Seq<BlockHeader>, i: int)
    requires
        0 <= i < headers.len(),
    ensures
        record_at(encoding_all(headers), i) == headers[i].encoding(),
{
    lemma_encoding_len(headers[i]);
    assert(record_at(encoding_all(headers), i) =~= headers[i].encoding());
}

/// A file that holds the records of `headers` holds exactly those headers.
pub proof fn lemma_records_of_encoding(headers: Seq<BlockHeader>)
    ensures
        whole(encoding_all(headers)),
        records(encoding_all(headers)) == headers,
{
    let bytes = encoding_all(headers);
    assert(bytes.len() / HEADER_SIZE as nat == headers.len());
    assert forall|i: int| 0 <= i < headers.len() implies records(bytes)[i] == headers[i] by {
        lemma_encoding_all_record(headers, i);
        lemma_encoding_injective(header_of(record_at(bytes, i)), headers[i]);
    }
    assert(records(bytes) =~= headers);
}

/// Records put behind a file add their headers to those that it holds: they
/// come out as they went in if the file was a whole number of records, and
/// in any case the headers already there stay as they are.
pub proof fn lemma_records_append(bytes: Seq<u8>, batch: Seq<BlockHeader>)
    ensures
        whole(bytes + encoding_all(batch)) == whole(bytes),
        records(bytes + encoding_all(batch)).len() == records(bytes).len() + batch.len(),
        records(bytes + encoding_all(batch)).take(records(bytes).len() as int) == records(bytes),
        whole(bytes) ==> records(bytes + encoding_all(batch)) == appended(records(bytes), batch),
{
    let after = bytes + encoding_all(batch);
    let n = records(bytes).len() as int;
    assert(after.len() == bytes.len() + batch.len() * HEADER_SIZE);
    assert forall|i: int| 0 <= i < n implies records(after)[i] == records(bytes)[i] by {
        assert(record_at(after, i) =~= record_at(bytes, i));
    }
    assert(records(after).take(n) =~= records(bytes));
    if whole(bytes) {
        assert forall|i: int| n <= i < n + batch.len() implies records(after)[i] == batch[i - n] by {
            lemma_encoding_all_record(batch, i - n);
            assert(record_at(after, i) =~= record_at(encoding_all(batch), i - n));
            lemma_encoding_injective(header_of(record_at(after, i)), batch[i - n]);
        }
        assert(records(after) =~= records(bytes) + batch);
    }
}

/// A file cut behind the record at `height` holds the headers up to that
/// height, and is a whole number of records.
pub proof fn lemma_records_truncate(bytes: Seq<u8>, height: Height)
    requires
        height < records(bytes).len(),
    ensures
        whole(bytes.take((height + 1) * HEADER_SIZE)),
        records(bytes.take((height + 1) * HEADER_SIZE)) == rolled_back(records(bytes), height),
{
    let cut = bytes.take((height + 1) * HEADER_SIZE);
    assert(cut.len() == (height + 1) * HEADER_SIZE);
    assert forall|i: int| 0 <= i <= height implies records(cut)[i] == records(bytes)[i] by {
        assert(record_at(cut, i) =~= record_at(bytes, i));
    }
    assert(records(cut) =~= records(bytes).take(height + 1));
}

/// Corruption detection: a file that is not a whole number of records has no
/// count, and the record of which it holds only a part is not found.
pub proof fn lemma_partial_record(bytes: Seq<u8>)
    requires
        bytes.len() <= u64::MAX,
        !whole(bytes),
    ensures
        count(records(bytes), whole(bytes)) == Err::<usize, Error>(Error::Corruption),
        lookup(records(bytes), (bytes.len() / HEADER_SIZE as nat) as Height) == Err::<
            BlockHeader,
            Error,
        >(Error::NotFound),
        replay(records(bytes), whole(bytes)).last() == Err::<(Height, BlockHeader), Error>(
            Error::Corruption,
        ),
{
}

/// The offset in the file at which the record at `height` begins, if a file
/// can be that large.
pub fn offset_of(height: Height) -> (r: Option<u64>)
    ensures
        height * HEADER_SIZE <= u64::MAX ==> r == Some((height * HEADER_SIZE) as u64),
        height * HEADER_SIZE > u64::MAX ==> r is None,
{
    height.checked_mul(HEADER_SIZE as u64)
}

/// The number of headers in a file of `size` bytes. Fails with `Corruption`
/// exactly when `size` is not a multiple of the record size.
pub fn count_records(size: u64) -> (r: Result<usize, Error>)
    requires
        size <= usize::MAX,
    ensures
        size % HEADER_SIZE as u64 == 0 ==> r == Ok::<usize, Error>((size / HEADER_SIZE as u64) as usize),
        size % HEADER_SIZE as u64 != 0 ==> r == Err::<usize, Error>(Error::Corruption),
{
    if size as usize % HEADER_SIZE != 0 {
        return Err(Error::Corruption);
    }
    Ok(size as usize / HEADER_SIZE)
}

/// The height of the last whole record in a file of `size` bytes. Fails with
/// `NotFound` exactly when the file holds no whole record.
pub fn tip_at(size: u64) -> (r: Result<Height, Error>)
    ensures
        size >= HEADER_SIZE ==> r == Ok::<Height, Error>((size / HEADER_SIZE as u64 - 1) as u64),
        size < HEADER_SIZE ==> r == Err::<Height, Error>(Error::NotFound),
{
    if size < HEADER_SIZE as u64 {
        return Err(Error::NotFound);
    }
    Ok(size / HEADER_SIZE as u64 - 1)
}

/// The size to which a file of `size` bytes is cut by a rollback to
/// `height`. Fails with `NotFound` exactly when the file holds no whole
/// record at `height`.
pub fn truncation(size: u64, height: Height) -> (r: Result<u64, Error>)
    ensures
        (height + 1) * HEADER_SIZE <= size ==> r == Ok::<u64, Error>(
            ((height + 1) * HEADER_SIZE) as u64,
        ),
        (height + 1) * HEADER_SIZE > size ==> r == Err::<u64, Error>(Error::NotFound),
{
    if height >= size / HEADER_SIZE as u64 {
        return Err(Error::NotFound);
    }
    Ok((height + 1) * HEADER_SIZE as u64)
}

/// Encode a batch of headers as their records, one behind the other.
pub fn encode_all(headers: &[BlockHeader]) -> (bytes: Vec<u8>)
    ensures
        bytes@ == encoding_all(headers@),
{
    let mut bytes: Vec<u8> = Vec::new();
    let mut i: usize = 0;
    while i < headers.len()
        invariant
            i <= headers.len(),
            bytes@ == encoding_all(headers@.take(i as int)),
        decreases headers.len() - i,
    {
        let mut record = encode(&headers[i]);
        bytes.append(&mut record);
        i = i + 1;
        assert(bytes@ =~= encoding_all(headers@.take(i as int)));
    }
    assert(headers@.take(i as int) =~= headers@);
    bytes
}

/// Make a header of what a read of one record brought. Whatever falls short
/// of a record, a clean end of file included, means that no header is stored
/// there.
pub fn read_record(chunk: &[u8]) -> (r: Result<BlockHeader, Error>)
    ensures
        chunk@.len() >= HEADER_SIZE ==> r == Ok::<BlockHeader, Error>(
            header_of(chunk@.take(HEADER_SIZE as int)),
        ),
        chunk@.len() < HEADER_SIZE ==> r == Err::<BlockHeader, Error>(Error::NotFound),
{
    if chunk.len() < HEADER_SIZE {
        return Err(Error::NotFound);
    }
    decode(chunk)
}

/// What a read of one record at `offset` brings from a file that holds
/// `bytes`: the 80 bytes from there on, or as many as the file still has.
pub open spec fn chunk_at(bytes: Seq<u8>, offset: int) -> Seq<u8> {
    if offset >= bytes.len() {
        Seq::empty()
    } else if offset + HEADER_SIZE <= bytes.len() {
        bytes.subrange(offset, offset + HEADER_SIZE)
    } else {
        bytes.subrange(offset, bytes.len() as int)
    }
}

/// Read the record at `height`, or as much of it as the file has.
fn read_at(stream: &[u8], height: Height) -> (chunk: &[u8])
    ensures
        chunk@ == chunk_at(stream@, height * HEADER_SIZE),
{
    let len: usize = stream.len();
    match offset_of(height) {
        Some(offset) if offset < len as u64 => {
            let start: usize = offset as usize;
            let end: usize = if len - start >= HEADER_SIZE {
                start + HEADER_SIZE
            } else {
                len
            };
            slice_subrange(stream, start, end)
        },
        _ => slice_subrange(stream, len, len),
    }
}

/// Append a batch of headers to the end of the file.
pub fn put(stream: &mut Vec<u8>, headers: &[BlockHeader]) -> (r: Result<Height, Error>)
    ensures
        final(stream)@ == old(stream)@ + encoding_all(headers@),
        r == tip(records(final(stream)@)),
{
    let mut batch = encode_all(headers);
    stream.append(&mut batch);
    tip_at(stream.len() as u64)
}

/// Get the header at the given height from the file.
pub fn get(stream: &[u8], height: Height) -> (r: Result<BlockHeader, Error>)
    ensures
        r == lookup(records(stream@), height),
{
    let chunk = read_at(stream, height);
    proof {
        if height < records(stream@).len() {
            assert(chunk@.take(HEADER_SIZE as int) =~= record_at(stream@, height as int));
        }
    }
    read_record(chunk)
}

/// A sequential reader of the headers in a file. It reads nothing itself:
/// it says where the next record lies and takes what a read there brought.
#[derive(Debug)]
pub struct Iter {
    /// The height of the next header.
    pub height: Height,
    /// Whether the replay has ended, cleanly or on a failure.
    pub done: bool,
}

/// What a reader at `height` yields for what a read of one record brought: a
/// failed read ends the replay with that failure, an empty read ends it
/// cleanly, a partial record ends it with `Corruption`, and a whole record
/// is the header at `height`.
pub open spec fn outcome(height: Height, read: Result<&[u8], Error>) -> Option<Item> {
    match read {
        Err(e) => Some(Err(e)),
        Ok(chunk) => if chunk@.len() == 0 {
            None
        } else if chunk@.len() < HEADER_SIZE {
            Some(Err(Error::Corruption))
        } else {
            Some(Ok((height, header_of(chunk@.take(HEADER_SIZE as int)))))
        },
    }
}

impl Iter {
    /// The reader after it yielded `item`: one height further after a
    /// header, at its end after anything else.
    pub open spec fn after(self, item: Option<Item>) -> Iter {
        if item matches Some(Ok(_)) && self.height < u64::MAX {
            Iter { height: (self.height + 1) as Height, done: false }
        } else {
            Iter { height: self.height, done: true }
        }
    }

    /// A reader at the start of the file.
    pub fn new() -> (reader: Self)
        ensures
            reader.height == 0,
            !reader.done,
    {
        Iter { height: 0, done: false }
    }

    /// The offset in the file at which to read next, or nothing when the
    /// replay has ended or no file reaches that far.
    pub fn offset(&self) -> (r: Option<u64>)
        ensures
            !self.done && self.height * HEADER_SIZE <= u64::MAX ==> r == Some(
                (self.height * HEADER_SIZE) as u64,
            ),
            self.done || self.height * HEADER_SIZE > u64::MAX ==> r is None,
    {
        if self.done {
            None
        } else {
            offset_of(self.height)
        }
    }

    /// Take what a read of one record at `offset()` brought, and yield the
    /// next item of the replay. After a header the reader stands one height
    /// further; after anything else the replay has ended, and every later
    /// call yields nothing.
    pub fn next(&mut self, read: Result<&[u8], Error>) -> (r: Option<Item>)
        ensures
            old(self).done ==> r is None && *final(self) == *old(self),
            !old(self).done ==> r == outcome(old(self).height, read),
            !old(self).done ==> *final(self) == old(self).after(r),
    {
        if self.done {
            return None;
        }
        let height = self.height;
        let item: Option<Item> = match read {
            Err(e) => Some(Err(e)),
            Ok(chunk) => if chunk.len() == 0 {
                None
            } else {
                match read_record(chunk) {
                    Ok(header) => Some(Ok((height, header))),
                    Err(_) => Some(Err(Error::Corruption)),
                }
            },
        };
        match (&item, height.checked_add(1)) {
            (Some(Ok(_)), Some(next)) => {
                self.height = next;
            },
            _ => {
                self.done = true;
            },
        }
        item
    }
}

/// A store over the content of a single file, held in memory: whoever owns
/// the file hands its bytes in and writes them out again.
#[derive(Debug)]
pub struct FileStore {
    image: Vec<u8>,
}

impl View for FileStore {
    type V = Seq<u8>;

    /// The content of the file.
    closed spec fn view(&self) -> Seq<u8> {
        self.image@
    }
}

impl FileStore {
    /// Open a store on the content of an existing file. A file without any
    /// record is accepted: the store is then empty until a first `put`.
    pub fn open(image: Vec<u8>) -> (store: Self)
        ensures
            store@ == image@,
    {
        FileStore { image }
    }

    /// Create a store for a new file, with the genesis header as its only
    /// record.
    pub fn create(genesis: BlockHeader) -> (store: Self)
        ensures
            store@ == genesis.encoding(),
            store.headers() == seq![genesis],
            store.intact(),
    {
        let mut image: Vec<u8> = Vec::new();
        let batch: Vec<BlockHeader> = vec![genesis];
        let _ = put(&mut image, batch.as_slice());
        proof {
            lemma_records_of_encoding(batch@);
            lemma_encoding_len(genesis);
            assert(encoding_all(batch@) =~= genesis.encoding());
            assert(image@ =~= genesis.encoding());
        }
        FileStore { image }
    }

    /// The content of the file.
    pub fn as_bytes(&self) -> (bytes: &[u8])
        ensures
            bytes@ == self@,
    {
        self.image.as_slice()
    }
}

impl Store for FileStore {
    open spec fn headers(&self) -> Seq<BlockHeader> {
        records(self@)
    }

    open spec fn intact(&self) -> bool {
        whole(self@)
    }

    /// Get the genesis header, or `NotFound` when the file holds no whole
    /// record.
    fn genesis(&self) -> (r: Result<BlockHeader, Error>)
        ensures
            r == lookup(self.headers(), 0),
    {
        self.get(0)
    }

    /// Append the records of a batch of headers to the end of the file, and
    /// return the height of the new tip. Fails, with `NotFound`, exactly
    /// when the file holds no whole record afterwards.
    fn put(&mut self, headers: Vec<BlockHeader>) -> (r: Result<Height, Error>)
        ensures
            final(self)@ == old(self)@ + encoding_all(headers@),
            r == tip(final(self).headers()),
    {
        proof {
            lemma_records_append(self@, headers@);
        }
        put(&mut self.image, headers.as_slice())
    }

    /// Get the header at the given height. A record of which the file holds
    /// nothing, or only a part, is not found.
    fn get(&self, height: Height) -> (r: Result<BlockHeader, Error>)
        ensures
            r == lookup(self.headers(), height),
    {
        get(self.image.as_slice(), height)
    }

    /// Cut the file behind the record at the given height. A height past
    /// the tip is refused with `NotFound`.
    fn rollback(&mut self, height: Height) -> (r: Result<(), Error>)
        ensures
            r == rollback_result(old(self).headers(), height),
            r is Ok ==> final(self)@ == old(self)@.take((height + 1) * HEADER_SIZE),
            r is Err ==> final(self)@ == old(self)@,
    {
        match truncation(self.image.len() as u64, height) {
            Ok(size) => {
                proof {
                    lemma_records_truncate(self@, height);
                }
                self.image.truncate(size as usize);
                Ok(())
            },
            Err(e) => Err(e),
        }
    }

    /// Nothing to do: the bytes are durable when whoever holds the file
    /// has written them out.
    fn sync(&mut self) -> (r: Result<(), Error>)
        ensures
            r is Ok,
            final(self)@ == old(self)@,
    {
        Ok(())
    }

    /// Replay all headers in the file, from the genesis header up. A partial
    /// record at the end of the file closes the replay with `Corruption`.
    fn iter(&self) -> (items: Vec<Item>)
        ensures
            items@ == replay(self.headers(), self.intact()),
    {
        let stream = self.image.as_slice();
        let mut items: Vec<Item> = Vec::with_capacity(stream.len() / HEADER_SIZE);
        let mut reader = Iter::new();
        while !reader.done
            invariant
                stream@ == self@,
                self@.len() <= usize::MAX,
                !reader.done ==> reader.height <= records(self@).len() && items@ == replay(
                    records(self@).take(reader.height as int),
                    true,
                ),
                reader.done ==> items@ == replay(records(self@), whole(self@)),
            decreases records(self@).len() - reader.height + if reader.done { 0int } else { 1int },
        {
            let ghost before = reader;
            let chunk = read_at(stream, reader.height);
            match reader.next(Ok(chunk)) {
                Some(item) => {
                    items.push(item);
                },
                None => {},
            }
            proof {
                let height = before.height as int;
                if height < records(self@).len() {
                    assert(chunk@.take(HEADER_SIZE as int) =~= record_at(self@, height));
                    assert(items@ =~= replay(records(self@).take(height + 1), true));
                } else {
                    assert(records(self@).take(height) =~= records(self@));
                    if whole(self@) {
                        assert(chunk@.len() == 0);
                    } else {
                        assert(0 < chunk@.len() < HEADER_SIZE);
                        assert(items@ =~= replay(records(self@), false));
                    }
                }
            }
        }
        items
    }

    /// Return the number of headers in the file. Fails with `Corruption`
    /// exactly when the file is not a whole number of records.
    fn len(&self) -> (r: Result<usize, Error>)
        ensures
            r == count(self.headers(), self.intact()),
    {
        count_records(self.image.len() as u64)
    }
}

} // verus!
