//! A store kept in memory, as a non-empty list of headers.

use crate::header::BlockHeader;
use crate::store::{
    appended, count, lookup, replay, rollback_result, tip, Error, Height, Item, Store,
};
use nonempty::NonEmpty;
use vstd::prelude::*;

verus! {

/// `nonempty::NonEmpty`, a list that always holds a first element.
#[verifier::external_type_specification]
#[verifier::external_body]
#[verifier::reject_recursive_types(T)]
pub struct ExNonEmpty<T>(NonEmpty<T>);

/// The elements of a non-empty list of headers, from its head on.
pub uninterp spec fn chain_headers(chain: NonEmpty<BlockHeader>) -> Seq<BlockHeader>;

/// Calls `NonEmpty::len`. Trusted: it returns the number of elements, which
/// is at least one.
#[verifier::external_body]
fn chain_len(chain: &NonEmpty<BlockHeader>) -> (n: usize)
    ensures
        n == chain_headers(*chain).len(),
        n >= 1,
{
    chain.len()
}

/// Calls `NonEmpty::first`. Trusted: the list is never empty, and what is
/// returned is its first element.
#[verifier::external_body]
fn chain_first(chain: &NonEmpty<BlockHeader>) -> (r: &BlockHeader)
    ensures
        chain_headers(*chain) == seq![*r] + chain_headers(*chain).drop_first(),
{
    chain.first()
}

/// Calls `NonEmpty::get`. Trusted: it returns the element at `index`, or
/// nothing when `index` is not below the length.
#[verifier::external_body]
fn chain_get(chain: &NonEmpty<BlockHeader>, index: usize) -> (r: Option<&BlockHeader>)
    ensures
        index < chain_headers(*chain).len() ==> r == Some(&chain_headers(*chain)[index as int]),
        index >= chain_headers(*chain).len() ==> r is None,
{
    chain.get(index)
}

/// Calls `Extend::extend` of `NonEmpty`. Trusted: it puts the elements of
/// `batch`, in order, behind those already held.
#[verifier::external_body]
fn chain_extend(chain: &mut NonEmpty<BlockHeader>, batch: Vec<BlockHeader>)
    ensures
        chain_headers(*final(chain)) == chain_headers(*old(chain)) + batch@,
{
    chain.extend(batch)
}

/// Calls `NonEmpty::truncate`, which panics on a length of zero. Trusted: it
/// keeps the first `len` elements and drops the rest, and changes nothing
/// when the list is no longer than `len`.
#[verifier::external_body]
fn chain_truncate(chain: &mut NonEmpty<BlockHeader>, len: usize)
    requires
        len >= 1,
    ensures
        len <= chain_headers(*old(chain)).len() ==> chain_headers(*final(chain)) == chain_headers(
            *old(chain),
        ).take(len as int),
        len > chain_headers(*old(chain)).len() ==> chain_headers(*final(chain)) == chain_headers(
            *old(chain),
        ),
{
    chain.truncate(len)
}

/// Calls `Clone::clone` of `NonEmpty`. Trusted: the copy holds the same
/// elements in the same order.
#[verifier::external_body]
fn chain_clone(chain: &NonEmpty<BlockHeader>) -> (r: NonEmpty<BlockHeader>)
    ensures
        chain_headers(r) == chain_headers(*chain),
{
    chain.clone()
}

/// A store that keeps its headers in memory.
#[derive(Debug)]
pub struct Memory(NonEmpty<BlockHeader>);

impl Clone for Memory {
    fn clone(&self) -> (r: Self)
        ensures
            r.headers() == self.headers(),
    {
        Self(chain_clone(&self.0))
    }
}

impl Memory {
    /// Create a store that holds the headers of `chain`, its head at height
    /// zero.
    pub fn new(chain: NonEmpty<BlockHeader>) -> (store: Self)
        ensures
            store.headers() == chain_headers(chain),
            store.intact(),
    {
        Self(chain)
    }
}

impl Store for Memory {
    closed spec fn headers(&self) -> Seq<BlockHeader> {
        chain_headers(self.0)
    }

    open spec fn intact(&self) -> bool {
        true
    }

    /// Get the genesis header, which a store in memory always holds.
    fn genesis(&self) -> (r: Result<BlockHeader, Error>)
        ensures
            r is Ok,
            r == lookup(self.headers(), 0),
    {
        Ok(*chain_first(&self.0))
    }

    /// Append a batch of consecutive headers to the end of the chain, and
    /// return the height of the new tip. Never fails.
    fn put(&mut self, headers: Vec<BlockHeader>) -> (r: Result<Height, Error>)
        ensures
            r is Ok,
            r == tip(final(self).headers()),
            final(self).headers() == appended(old(self).headers(), headers@),
    {
        chain_extend(&mut self.0, headers);
        let n: usize = chain_len(&self.0);
        Ok((n - 1) as Height)
    }

    /// Get the header at the given height, or `NotFound` past the tip.
    fn get(&self, height: Height) -> (r: Result<BlockHeader, Error>)
        ensures
            r == lookup(self.headers(), height),
    {
        let n: usize = chain_len(&self.0);
        if height >= n as u64 {
            return Err(Error::NotFound);
        }
        match chain_get(&self.0, height as usize) {
            Some(header) => Ok(*header),
            None => Err(Error::NotFound),
        }
    }

    /// Roll the chain back to the given height. The genesis header always
    /// stays. A height past the tip is refused with `NotFound`.
    fn rollback(&mut self, height: Height) -> (r: Result<(), Error>)
        ensures
            r == rollback_result(old(self).headers(), height),
    {
        let n: usize = chain_len(&self.0);
        if height >= n as u64 {
            return Err(Error::NotFound);
        }
        chain_truncate(&mut self.0, height as usize + 1);
        Ok(())
    }

    /// Nothing to do: a store in memory has nothing to flush.
    fn sync(&mut self) -> (r: Result<(), Error>)
        ensures
            r is Ok,
    {
        Ok(())
    }

    /// Replay all headers in the store, from the genesis header up.
    fn iter(&self) -> (items: Vec<Item>)
        ensures
            items@ == replay(self.headers(), true),
    {
        let n: usize = chain_len(&self.0);
        let mut items: Vec<Item> = Vec::new();
        let mut i: usize = 0;
        while i < n
            invariant
                i <= n,
                n == self.headers().len(),
                items@ == replay(self.headers().take(i as int), true),
            decreases n - i,
        {
            if let Some(header) = chain_get(&self.0, i) {
                items.push(Ok((i as Height, *header)));
            }
            i = i + 1;
            assert(items@ =~= replay(self.headers().take(i as int), true));
        }
        assert(self.headers().take(n as int) =~= self.headers());
        items
    }

    /// Return the number of headers in the store. Never fails.
    fn len(&self) -> (r: Result<usize, Error>)
        ensures
            r is Ok,
            r == count(self.headers(), true),
    {
        Ok(chain_len(&self.0))
    }
}

} // verus!
