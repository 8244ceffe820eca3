//! The per-handle read cache.
//!
//! Each open file handle owns at most one contiguous byte range of
//! its file. A read that falls inside the range is served from
//! memory; any other read asks the caller to fetch one fixed-size
//! chunk starting at the read offset, which then replaces the
//! handle's buffer. There is no prefetch and no sharing across
//! handles.
use vstd::prelude::*;

use std::collections::BTreeMap;

use bytes::Bytes;

use crate::buf::bytes_empty;
use crate::buf::bytes_len;
use crate::buf::bytes_slice;
use crate::buf::bytes_view;
use crate::error::Error;

verus! {

broadcast use vstd::std_specs::btree::group_btree_axioms, vstd::laws_cmp::group_laws_cmp;

/// The cache entry of one open file handle.
pub struct CachedFile {
    /// The remote identifier of the file the handle reads.
    pub file_id: String,
    /// The size of that file, fixed at `open`.
    pub file_size: u64,
    /// The file offset of the buffer's first byte.
    pub start_pos: u64,
    /// The buffered range; empty until the first miss.
    pub buffer: Bytes,
}

/// A non-empty buffer lies entirely inside the file.
pub open spec fn entry_wf(e: CachedFile) -> bool {
    bytes_view(e.buffer).len() > 0 ==> e.start_pos + bytes_view(e.buffer).len() <= e.file_size
}

/// What a read wants done: serve these bytes now, or fetch one chunk
/// and apply it.
#[derive(Debug)]
pub enum ReadPlan {
    /// The read is served from the buffer (or is past the end of the
    /// file, in which case the bytes are empty).
    Hit(Bytes),
    /// Fetch `len` bytes of the file starting at `start` via a fresh
    /// download URL for `file_id`, then hand the chunk to
    /// [`FileCache::apply_chunk`] together with `serve`.
    Fetch {
        /// The remote identifier to request a download URL for.
        file_id: String,
        /// The file offset the chunk starts at.
        start: u64,
        /// The number of bytes to request; never zero.
        len: usize,
        /// The size of the read being served, to pass on to
        /// [`FileCache::apply_chunk`].
        serve: u32,
    },
}

/// The read cache: one entry per open file handle, plus the
/// configured chunk size.
pub struct FileCache {
    /// Bytes fetched per miss; a single per-process tunable.
    pub read_buffer_size: usize,
    /// The entry of each open handle.
    pub cache: BTreeMap<u64, CachedFile>,
}

impl FileCache {
    /// Every entry's buffer lies inside its file.
    pub open spec fn wf(self) -> bool {
        &&& self.read_buffer_size > 0
        &&& forall|fh: u64|
            self.cache@.contains_key(fh) ==> entry_wf(#[trigger] self.cache@[fh])
    }

    /// Whether a handle is registered.
    pub open spec fn contains(self, fh: u64) -> bool {
        self.cache@.contains_key(fh)
    }

    /// The entry of a registered handle.
    pub open spec fn entry(self, fh: u64) -> CachedFile {
        self.cache@[fh]
    }

    /// The buffered bytes of a registered handle.
    pub open spec fn buf(self, fh: u64) -> Seq<u8> {
        bytes_view(self.cache@[fh].buffer)
    }

    /// Whether a read of `size` bytes at `offset` would be answered
    /// from the handle's buffer, with no fetch.
    pub open spec fn serves_from_buffer(self, fh: u64, offset: u64, size: u32) -> bool {
        &&& self.contains(fh)
        &&& {
            let e = self.entry(fh);
            offset >= e.file_size || (e.start_pos <= offset && offset + size <= e.start_pos
                + self.buf(fh).len())
        }
    }

    /// An empty cache with the given chunk size. A zero chunk size
    /// would make every fetch empty, so it is excluded.
    pub fn new(read_buffer_size: usize) -> (cache: Self)
        requires
            read_buffer_size > 0,
        ensures
            cache.wf(),
            cache.cache@ == Map::<u64, CachedFile>::empty(),
            cache.read_buffer_size == read_buffer_size,
    {
        FileCache { read_buffer_size, cache: BTreeMap::new() }
    }

    /// Register a handle: an entry with an empty buffer, replacing
    /// any prior entry under the same handle.
    pub fn open(&mut self, fh: u64, file_id: String, file_size: u64)
        requires
            old(self).wf(),
        ensures
            final(self).wf(),
            final(self).read_buffer_size == old(self).read_buffer_size,
            final(self).cache@ == old(self).cache@.insert(fh, final(self).cache@[fh]),
            final(self).contains(fh),
            final(self).entry(fh).file_id == file_id,
            final(self).entry(fh).file_size == file_size,
            final(self).entry(fh).start_pos == 0,
            final(self).buf(fh) == Seq::<u8>::empty(),
    {
        let file = CachedFile { file_id, file_size, start_pos: 0, buffer: bytes_empty() };
        self.cache.insert(fh, file);
    }

    /// Drop a handle's entry; unknown handles are a no-op.
    pub fn release(&mut self, fh: u64)
        requires
            old(self).wf(),
        ensures
            final(self).wf(),
            final(self).read_buffer_size == old(self).read_buffer_size,
            final(self).cache@ == old(self).cache@.remove(fh),
    {
        self.cache.remove(&fh);
    }

    /// Decide a read: an unknown handle is `NoEntry`; a read past the
    /// end of the file is an empty hit; a read inside the buffered
    /// range is a hit with exactly the requested slice; any other
    /// read asks for one chunk of `min(read_buffer_size, file_size -
    /// offset)` bytes at the read offset.
    pub fn read(&self, fh: u64, offset: u64, size: u32) -> (plan: Result<ReadPlan, Error>)
        requires
            self.wf(),
        ensures
            match plan {
                Err(e) => e == Error::NoEntry && !self.contains(fh),
                Ok(p) => {
                    &&& self.contains(fh)
                    &&& (p is Hit <==> self.serves_from_buffer(fh, offset, size))
                    &&& {
                        let e = self.entry(fh);
                        if offset >= e.file_size {
                            p matches ReadPlan::Hit(data) && bytes_view(data)
                                == Seq::<u8>::empty()
                        } else if e.start_pos <= offset && offset + size <= e.start_pos
                            + self.buf(fh).len() {
                            p matches ReadPlan::Hit(data) && bytes_view(data) == self.buf(
                                fh,
                            ).subrange(
                                offset - e.start_pos,
                                offset - e.start_pos + size,
                            )
                        } else {
                            p matches ReadPlan::Fetch { file_id, start, len, serve } && {
                                &&& file_id == e.file_id
                                &&& start == offset
                                &&& len == if self.read_buffer_size <= e.file_size - offset {
                                    self.read_buffer_size as int
                                } else {
                                    e.file_size - offset
                                }
                                &&& 0 < len <= e.file_size - offset
                                &&& serve == size
                            }
                        }
                    }
                },
            },
    {
        let cached = match self.cache.get(&fh) {
            Some(c) => c,
            None => {
                return Err(Error::NoEntry);
            },
        };
        if offset >= cached.file_size {
            return Ok(ReadPlan::Hit(bytes_empty()));
        }
        let buf_size = bytes_len(&cached.buffer);
        let end: u128 = offset as u128 + size as u128;
        if cached.start_pos <= offset && end <= cached.start_pos as u128 + buf_size as u128 {
            let buf_start = (offset - cached.start_pos) as usize;
            let buf_end = buf_start + size as usize;
            return Ok(ReadPlan::Hit(bytes_slice(&cached.buffer, buf_start, buf_end)));
        }
        let remain = cached.file_size - offset;
        let len: usize = if self.read_buffer_size as u64 <= remain {
            self.read_buffer_size
        } else {
            remain as usize
        };
        Ok(ReadPlan::Fetch { file_id: cached.file_id.clone(), start: offset, len, serve: size })
    }

    /// Install a fetched chunk as the handle's buffer, starting at
    /// the read offset, and serve the first `min(size, chunk length)`
    /// bytes of it. The chunk must lie inside the file, as a range
    /// download for a fetch plan guarantees.
    pub fn apply_chunk(&mut self, fh: u64, offset: u64, chunk: Bytes, size: u32) -> (data: Bytes)
        requires
            old(self).wf(),
            old(self).contains(fh),
            offset < old(self).entry(fh).file_size,
            bytes_view(chunk).len() <= old(self).entry(fh).file_size - offset,
        ensures
            final(self).wf(),
            final(self).read_buffer_size == old(self).read_buffer_size,
            final(self).cache@ == old(self).cache@.insert(fh, final(self).cache@[fh]),
            final(self).entry(fh).file_id == old(self).entry(fh).file_id,
            final(self).entry(fh).file_size == old(self).entry(fh).file_size,
            final(self).entry(fh).start_pos == offset,
            final(self).buf(fh) == bytes_view(chunk),
            bytes_view(data) == bytes_view(chunk).subrange(
                0,
                if size <= bytes_view(chunk).len() {
                    size as int
                } else {
                    bytes_view(chunk).len() as int
                },
            ),
    {
        let len = bytes_len(&chunk);
        let keep: usize = if size as usize <= len {
            size as usize
        } else {
            len
        };
        let data = bytes_slice(&chunk, 0, keep);
        let (file_id, file_size) = match self.cache.get(&fh) {
            Some(c) => (c.file_id.clone(), c.file_size),
            None => unreached(),
        };
        let entry = CachedFile { file_id, file_size, start_pos: offset, buffer: chunk };
        self.cache.insert(fh, entry);
        data
    }
}

/// Opening a fresh handle and releasing it restores the cache map to
/// its state before the open.
pub proof fn lemma_open_then_release(
    entries: Map<u64, CachedFile>,
    fh: u64,
    entry: CachedFile,
)
    requires
        !entries.contains_key(fh),
    ensures
        entries.insert(fh, entry).remove(fh) == entries,
{
    assert(entries.insert(fh, entry).remove(fh) =~= entries);
}

/// A read that lies wholly inside a read the buffer already serves
/// is served from the buffer too: once a range has been read without
/// a fetch, so is every read inside it, as long as the buffer
/// stands.
pub proof fn lemma_subread_also_served(
    cache: FileCache,
    fh: u64,
    prior_offset: u64,
    prior_size: u32,
    offset: u64,
    size: u32,
)
    requires
        cache.serves_from_buffer(fh, prior_offset, prior_size),
        prior_offset <= offset,
        offset + size <= prior_offset + prior_size,
    ensures
        cache.serves_from_buffer(fh, offset, size),
{
}

/// A read that lies entirely within the byte range a previous read
/// returned is served from the buffer and issues no fetch.
pub proof fn lemma_read_within_returned_range(
    cache: FileCache,
    fh: u64,
    prior_offset: u64,
    prior_size: u32,
    offset: u64,
    size: u32,
)
    requires
        cache.wf(),
        cache.contains(fh),
        cache.entry(fh).start_pos == prior_offset,
        offset >= prior_offset,
        offset + size <= prior_offset + (if prior_size <= cache.buf(fh).len() {
            prior_size as int
        } else {
            cache.buf(fh).len() as int
        }),
    ensures
        cache.serves_from_buffer(fh, offset, size),
{
}

} // verus!
