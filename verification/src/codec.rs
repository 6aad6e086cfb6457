//! Encode and decode orchestration: the external convergent-encryption
//! codec is driven against the block store through two narrow
//! callbacks, a put for encode and a get for decode.

use crate::paths::path_of;
use crate::store::{find_in, BlockWithReference, MemStore, StorageError, StorageErrorKind};
use eris_rs::types::BlockSize as ErisBlockSize;
use eris_rs::types::BlockWithReference as ErisBlock;
use std::cell::RefCell;
use std::mem::replace;
use std::rc::Rc;
use vstd::prelude::*;

verus! {

/// The block length one encode run uses throughout.
#[derive(Clone, Copy, Debug, PartialEq, Eq, Structural)]
pub enum BlockSize {
    Size1KiB,
    Size32KiB,
}

impl BlockSize {
    /// Whether this is the large, 32 KiB, size.
    pub open spec fn is_large(self) -> bool {
        self == BlockSize::Size32KiB
    }
}

/// What one encode run was given: the content, the convergence secret
/// and the block size choice.
pub struct EncodeOrigin {
    pub content: Seq<u8>,
    pub secret: Seq<u8>,
    pub large: bool,
}

/// The encode run with the given inputs.
pub open spec fn run_of(content: Seq<u8>, secret: Seq<u8>, large: bool) -> EncodeOrigin {
    EncodeOrigin { content, secret, large }
}

/// The blocks the splitting algorithm produces for one encode run, as a
/// map from each 32-byte reference to that block's encrypted bytes. The
/// algorithm is deterministic: the result depends on the content, the
/// secret and the block size alone.
pub uninterp spec fn eris_blocks(content: Seq<u8>, secret: Seq<u8>, large: bool) -> Map<
    Seq<u8>,
    Seq<u8>,
>;

#[verifier::external_type_specification]
#[verifier::external_body]
pub struct ExReadCapability(eris_rs::types::ReadCapability);

/// A read capability: the collaborator's opaque descriptor of an
/// encoded stream, together with the encode run it is known to come
/// from, kept as ghost state. A `Some` origin is attached in exactly
/// one place — inside the trusted encode wrapper, to the descriptor
/// that very run returned — so a labelled capability is always
/// truthfully labelled; `from_raw` labels nothing.
pub struct Capability {
    raw: eris_rs::types::ReadCapability,
    origin: Ghost<Option<EncodeOrigin>>,
}

impl Capability {
    /// The encode run this capability is known to come from, if any.
    pub closed spec fn origin(&self) -> Option<EncodeOrigin> {
        self.origin@
    }

    /// The collaborator's raw descriptor, for serialization at the edge.
    pub fn read_capability(&self) -> &eris_rs::types::ReadCapability {
        &self.raw
    }

    /// Wraps a descriptor obtained elsewhere, such as a parsed URN:
    /// nothing is known of its origin.
    pub fn from_raw(raw: eris_rs::types::ReadCapability) -> (r: Capability)
        ensures
            r.origin() is None,
    {
        Capability { raw, origin: Ghost(None) }
    }
}

/// Every block of the given encode run is present in the store, under
/// its derived path and with exactly the produced bytes.
pub open spec fn blocks_available(store: MemStore, o: EncodeOrigin) -> bool {
    forall|rf: Seq<u8>|
        #[trigger] eris_blocks(o.content, o.secret, o.large).dom().contains(rf) ==> find_in(
            store.entries@,
            path_of(store.root@, rf),
        ) == Some(eris_blocks(o.content, o.secret, o.large)[rf])
}

/// The store agrees with the given encode run wherever it holds
/// anything: under each produced reference's derived path it holds
/// either nothing or exactly the produced bytes. Content addressing
/// grants this of any store written only through this codec.
pub open spec fn store_consistent(store: MemStore, o: EncodeOrigin) -> bool {
    forall|rf: Seq<u8>|
        #[trigger] eris_blocks(o.content, o.secret, o.large).dom().contains(rf) ==> (find_in(
            store.entries@,
            path_of(store.root@, rf),
        ) is None || find_in(store.entries@, path_of(store.root@, rf)) == Some(
            eris_blocks(o.content, o.secret, o.large)[rf],
        ))
}

#[verifier::external_type_specification]
#[verifier::external_body]
pub struct ExIoError(std::io::Error);

/// Relies on std::io::Error::new: builds the io-level error that hands
/// a store failure on to the collaborator, keeping kind and message.
#[verifier::external_body]
fn storage_to_io_error(e: StorageError) -> std::io::Error {
    let kind = match e.kind {
        StorageErrorKind::NotFound => std::io::ErrorKind::NotFound,
        StorageErrorKind::IoError => std::io::ErrorKind::Other,
    };
    std::io::Error::new(kind, e.message)
}

/// Relies on std::io::Error::kind and its Display impl: maps the
/// collaborator's io-level error back into the store's taxonomy.
#[verifier::external_body]
fn io_to_storage_error(e: std::io::Error) -> StorageError {
    let kind = if e.kind() == std::io::ErrorKind::NotFound {
        StorageErrorKind::NotFound
    } else {
        StorageErrorKind::IoError
    };
    StorageError { kind, message: format!("{}", e) }
}

/// Relies on eris_rs::encode::encode: it reads the whole input, splits
/// and encrypts it deterministically, and hands each produced block —
/// exactly the blocks `eris_blocks` names — to the callback, here the
/// verified `MemStore::put`; it touches the store in no other way.
/// Success is owed: a byte-slice reader cannot fail, the in-memory put
/// always returns `Ok`, and the collaborator's encode errs only when
/// the reader or the callback errs. Each produced block therefore goes
/// through `put`, whose own contract says what remains: a path the old
/// store already held keeps its old bytes (content addressing trusts
/// them equal), every other produced path gets exactly the produced
/// bytes. The capability's ghost origin is attached here, inside the
/// trusted boundary, to the very descriptor this run returned: no
/// verified code writes a `Some` origin, so a labelled capability is
/// always truthfully labelled.
#[verifier::external_body]
fn eris_encode_raw(input: &[u8], secret: &[u8; 32], large: bool, store: &mut MemStore) -> (r:
    Result<Capability, StorageError>)
    requires
        old(store).wf(),
    ensures
        r is Ok,
        final(store).wf(),
        final(store).root@ == old(store).root@,
        forall|q: Seq<u8>|
            find_in(old(store).entries@, q) is Some ==> #[trigger] find_in(
                final(store).entries@,
                q,
            ) == find_in(old(store).entries@, q),
        forall|q: Seq<u8>|
            #[trigger] find_in(final(store).entries@, q) is Some ==> find_in(
                old(store).entries@,
                q,
            ) is Some || (exists|rf: Seq<u8>|
                #[trigger] eris_blocks(input@, secret@, large).dom().contains(rf) && q == path_of(
                    old(store).root@,
                    rf,
                )),
        forall|rf: Seq<u8>|
            #[trigger] eris_blocks(input@, secret@, large).dom().contains(rf) ==> find_in(
                final(store).entries@,
                path_of(old(store).root@, rf),
            ) is Some,
        forall|rf: Seq<u8>|
            #[trigger] eris_blocks(input@, secret@, large).dom().contains(rf) ==> (find_in(
                old(store).entries@,
                path_of(old(store).root@, rf),
            ) is None ==> find_in(final(store).entries@, path_of(old(store).root@, rf)) == Some(
                eris_blocks(input@, secret@, large)[rf],
            )),
        r matches Ok(cap) ==> cap.origin() == Some(
            EncodeOrigin { content: input@, secret: secret@, large },
        ),
{
    let bs = if large { ErisBlockSize::Size32KiB } else { ErisBlockSize::Size1KiB };
    let cell = Rc::new(RefCell::new(replace(store, MemStore::new(Vec::new()))));
    let c = cell.clone();
    let put = move |bwr: ErisBlock| c.borrow_mut().put(
        &BlockWithReference { block: bwr.block, reference: bwr.reference },
    ).map_err(storage_to_io_error);
    let res = eris_rs::encode::encode(&mut &input[..], secret, bs, &put);
    drop(put);
    *store = Rc::try_unwrap(cell).ok().unwrap().into_inner();
    match res {
        Ok(raw) => Ok(Capability { raw, origin: Ghost(Some(run_of(input@, secret@, large))) }),
        Err(e) => Err(io_to_storage_error(e)),
    }
}

/// Relies on eris_rs::decode::decode: it walks the capability's
/// reference tree through the get callback, here the verified
/// `MemStore::get`, and checks each fetched block's length and its
/// blake2b-256 hash against the reference before using it. So: when
/// the store holds every block of the run the capability came from,
/// decode succeeds with exactly that run's content; any successful
/// decode of such a capability returns that content, whatever else the
/// store held, since a clashing block fails the hash check; and when
/// the store merely agrees with the run (nothing clashing), the only
/// possible failure is a missing block, which the get callback reports
/// as not found and decode surfaces unchanged. Decode fetches every
/// block of the run — the whole reference tree and every leaf — so
/// against an agreeing store a success also means none was missing.
#[verifier::external_body]
fn eris_decode_raw(store: &MemStore, cap: &Capability) -> (r: Result<Vec<u8>, StorageError>)
    requires
        store.wf(),
    ensures
        r is Err ==> !(cap.origin() matches Some(o) && blocks_available(*store, o)),
        r matches Ok(out) ==> (cap.origin() matches Some(o) ==> out@ == o.content),
        r matches Err(e) ==> (cap.origin() matches Some(o) ==> (store_consistent(*store, o)
            ==> e.kind == StorageErrorKind::NotFound)),
        r is Ok ==> (cap.origin() matches Some(o) ==> (store_consistent(*store, o)
            ==> blocks_available(*store, o))),
{
    let owned = MemStore { root: store.root.clone(), entries: store.entries.clone() };
    let get = move |rf: [u8; 32]| owned.get(&rf).map_err(storage_to_io_error);
    let raw = eris_rs::types::ReadCapability {
        block_size: cap.raw.block_size,
        level: cap.raw.level,
        root: cap.raw.root,
    };
    let mut out: Vec<u8> = Vec::new();
    match eris_rs::decode::decode(raw, &mut out, &get) {
        Ok(_) => Ok(out),
        Err(e) => Err(io_to_storage_error(e)),
    }
}

/// Encodes `input` into the store: the splitting algorithm is driven
/// with a put callback over `store`, every produced block ends up
/// present under its derived path, a path already occupied keeps its
/// bytes (content addressing trusts them equal), every other produced
/// path gets exactly the produced bytes, and no other file changes.
/// With a byte-slice input and the in-memory store nothing can fail,
/// so the call succeeds and the returned capability describes this
/// run; when the store already agreed with the run wherever it held
/// anything, every block of the run is afterwards available exactly.
pub fn encode(input: &[u8], block_size: BlockSize, secret: &[u8; 32], store: &mut MemStore) -> (r:
    Result<Capability, StorageError>)
    requires
        old(store).wf(),
    ensures
        r is Ok,
        final(store).wf(),
        final(store).root@ == old(store).root@,
        forall|q: Seq<u8>|
            find_in(old(store).entries@, q) is Some ==> #[trigger] find_in(
                final(store).entries@,
                q,
            ) == find_in(old(store).entries@, q),
        forall|q: Seq<u8>|
            #[trigger] find_in(final(store).entries@, q) is Some ==> find_in(
                old(store).entries@,
                q,
            ) is Some || (exists|rf: Seq<u8>|
                #[trigger] eris_blocks(input@, secret@, block_size.is_large()).dom().contains(rf)
                    && q == path_of(old(store).root@, rf)),
        forall|rf: Seq<u8>|
            #[trigger] eris_blocks(input@, secret@, block_size.is_large()).dom().contains(rf)
                ==> find_in(final(store).entries@, path_of(old(store).root@, rf)) is Some,
        forall|rf: Seq<u8>|
            #[trigger] eris_blocks(input@, secret@, block_size.is_large()).dom().contains(rf)
                ==> (find_in(old(store).entries@, path_of(old(store).root@, rf)) is None
                ==> find_in(final(store).entries@, path_of(old(store).root@, rf)) == Some(
                eris_blocks(input@, secret@, block_size.is_large())[rf],
            )),
        r matches Ok(cap) ==> cap.origin() == Some(
            EncodeOrigin { content: input@, secret: secret@, large: block_size.is_large() },
        ),
        store_consistent(
            *old(store),
            EncodeOrigin { content: input@, secret: secret@, large: block_size.is_large() },
        ) ==> blocks_available(
            *final(store),
            EncodeOrigin { content: input@, secret: secret@, large: block_size.is_large() },
        ),
{
    let large = match block_size {
        BlockSize::Size32KiB => true,
        BlockSize::Size1KiB => false,
    };
    eris_encode_raw(input, secret, large, store)
}

/// Decodes a capability against the store: the reconstruction algorithm
/// is driven with a get callback over `store` and the reassembled
/// content is returned whole. For a capability returned by `encode`
/// against a store that still holds every block of that run, the result
/// is exactly the encoded content; any successful decode of such a
/// capability returns that content, whatever else the store held.
/// Against a store that merely agrees with the run, a failure can only
/// be a missing block, reported as `NotFound` — and a missing block
/// can only be a failure: decode fetches every block of the run, so a
/// success against an agreeing store means all of them were there.
pub fn decode(store: &MemStore, cap: &Capability) -> (r: Result<Vec<u8>, StorageError>)
    requires
        store.wf(),
    ensures
        (cap.origin() matches Some(o) && blocks_available(*store, o)) ==> (r matches Ok(out)
            && out@ == cap.origin()->Some_0.content),
        r matches Ok(out) ==> (cap.origin() matches Some(o) ==> out@ == o.content),
        r matches Err(e) ==> (cap.origin() matches Some(o) ==> (store_consistent(*store, o)
            ==> e.kind == StorageErrorKind::NotFound)),
        r is Ok ==> (cap.origin() matches Some(o) ==> (store_consistent(*store, o)
            ==> blocks_available(*store, o))),
{
    eris_decode_raw(store, cap)
}

/// Round trip: encoding into a fresh store and decoding the returned
/// capability against that same store succeeds and gives back the
/// encoded bytes exactly, whatever the content, the secret and the
/// block size. The fresh store stands in for any store that agrees
/// with the run, which content addressing grants of every store
/// written only through this codec.
pub fn round_trip(input: &[u8], block_size: BlockSize, secret: &[u8; 32], store: &mut MemStore) -> (
    r: Result<Vec<u8>, StorageError>)
    requires
        old(store).wf(),
        old(store).entries@.len() == 0,
    ensures
        final(store).wf(),
        r matches Ok(out) && out@ == input@,
{
    let ghost o = EncodeOrigin { content: input@, secret: secret@, large: block_size.is_large() };
    proof {
        assert(store_consistent(*store, o));
    }
    let cap = encode(input, block_size, secret, store).unwrap();
    proof {
        assert(blocks_available(*store, o));
    }
    decode(store, &cap)
}

} // verus!
