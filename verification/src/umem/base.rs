use std::sync::Arc;
use vstd::prelude::*;

use crate::error::{decimal, CamelliaError};
use crate::umem::frame::{share_area, Chunk};
use crate::umem::libxdp::populate_fill_ring;
use crate::umem::mmap::MMapArea;

verus! {

/// Default chunk (frame) size of a UMem, as in libxdp.
pub const XSK_UMEM__DEFAULT_FRAME_SIZE: u32 = 4096;

/// Default headroom in front of each frame, as in libxdp.
pub const XSK_UMEM__DEFAULT_FRAME_HEADROOM: u32 = 0;

/// Default number of descriptors of a producer ring (fill, TX), as in libxdp.
pub const XSK_RING_PROD__DEFAULT_NUM_DESCS: u32 = 2048;

/// Default number of descriptors of a consumer ring (completion, RX), as in libxdp.
pub const XSK_RING_CONS__DEFAULT_NUM_DESCS: u32 = 2048;

/// The settings handed to `xsk_umem__create` (`struct xsk_umem_config`).
#[derive(Debug, Clone, Copy, PartialEq, Eq)]
pub struct UMemConfig {
    pub frame_size: u32,
    pub frame_headroom: u32,
    pub fill_size: u32,
    pub comp_size: u32,
    pub flags: u32,
}

/// The `RLIMIT_MEMLOCK` value (soft and hard alike) to set so that `locked`
/// bytes of UMem can be locked: none when the smaller of the current limits
/// already allows it.
pub fn memlock_raise(soft: u64, hard: u64, locked: u64) -> (r: Option<u64>)
    ensures
        r == if (if soft < hard { soft } else { hard }) < locked {
            Some(locked)
        } else {
            None::<u64>
        },
{
    let current = if soft < hard {
        soft
    } else {
        hard
    };
    if current < locked {
        Some(locked)
    } else {
        None
    }
}

/// The locked-memory total once a UMem of `num_chunks` chunks of `chunk_size`
/// bytes is built: it grows by the size of the UMem.
pub fn locked_after_build(locked: u64, chunk_size: u32, num_chunks: u32) -> (r: u64)
    requires
        locked + chunk_size * num_chunks <= u64::MAX,
    ensures
        r == locked + chunk_size * num_chunks,
{
    assert(chunk_size * num_chunks <= 0xffff_ffff * 0xffff_ffff) by (nonlinear_arith)
        requires
            chunk_size <= 0xffff_ffff,
            num_chunks <= 0xffff_ffff,
    ;
    locked + chunk_size as u64 * num_chunks as u64
}

/// The locked-memory total once a UMem of `num_chunks` chunks of `chunk_size`
/// bytes is dropped: it shrinks by the size of the UMem.
pub fn locked_after_release(locked: u64, chunk_size: u32, num_chunks: u32) -> (r: u64)
    requires
        locked >= chunk_size * num_chunks,
    ensures
        r == locked - chunk_size * num_chunks,
{
    assert(chunk_size * num_chunks <= 0xffff_ffff * 0xffff_ffff) by (nonlinear_arith)
        requires
            chunk_size <= 0xffff_ffff,
            num_chunks <= 0xffff_ffff,
    ;
    locked - chunk_size as u64 * num_chunks as u64
}

/// Collects the parameters of a UMem.
pub struct UMemBuilder {
    chunk_size: u32,
    num_chunks: Option<u32>,
    frame_headroom: u32,
    fill_queue_size: u32,
    completion_queue_size: u32,
}

/// The settings a [`UMemBuilder`] has collected.
#[derive(Debug, Clone, Copy, PartialEq, Eq)]
pub struct UMemSettings {
    pub chunk_size: u32,
    pub num_chunks: Option<u32>,
    pub frame_headroom: u32,
    pub fill_queue_size: u32,
    pub completion_queue_size: u32,
}

impl UMemSettings {
    /// libxdp's defaults, chunk count unset.
    pub open spec fn initial() -> UMemSettings {
        UMemSettings {
            chunk_size: XSK_UMEM__DEFAULT_FRAME_SIZE,
            num_chunks: None,
            frame_headroom: XSK_UMEM__DEFAULT_FRAME_HEADROOM,
            fill_queue_size: XSK_RING_PROD__DEFAULT_NUM_DESCS,
            completion_queue_size: XSK_RING_CONS__DEFAULT_NUM_DESCS,
        }
    }

    /// The configuration a UMem built from these settings is created with.
    pub open spec fn config(self) -> UMemConfig {
        UMemConfig {
            frame_size: self.chunk_size,
            frame_headroom: self.frame_headroom,
            fill_size: self.fill_queue_size,
            comp_size: self.completion_queue_size,
            flags: 0,
        }
    }
}

impl View for UMemBuilder {
    type V = UMemSettings;

    closed spec fn view(&self) -> UMemSettings {
        UMemSettings {
            chunk_size: self.chunk_size,
            num_chunks: self.num_chunks,
            frame_headroom: self.frame_headroom,
            fill_queue_size: self.fill_queue_size,
            completion_queue_size: self.completion_queue_size,
        }
    }
}

impl Default for UMemBuilder {
    fn default() -> (r: Self)
        ensures
            r@ == UMemSettings::initial(),
    {
        Self::new()
    }
}

/// The message with which a request for more chunks than the pool holds is refused.
pub open spec fn pool_shortage(requested: usize, available: usize) -> Seq<char> {
    "SharedUMem::allocate: "@ + decimal(requested as nat) + " chunks requested, but only "@
        + decimal(available as nat) + " chunks available"@
}

/// The message with which an accessor refuses a request for more frames than it has.
pub open spec fn frame_shortage(requested: usize, available: usize) -> Seq<char> {
    "request "@ + decimal(requested as nat) + " frames, but only "@ + decimal(available as nat)
        + " frames are available"@
}

/// Formats (with `format!`, numbers in decimal) the message for a refused pool allocation.
#[verifier::external_body]
fn pool_shortage_message(requested: usize, available: usize) -> (s: String)
    ensures
        s@ == pool_shortage(requested, available),
{
    format!(
        "SharedUMem::allocate: {} chunks requested, but only {} chunks available",
        requested,
        available
    )
}

/// Formats (with `format!`, numbers in decimal) the message for a refused frame allocation.
#[verifier::external_body]
fn frame_shortage_message(requested: usize, available: usize) -> (s: String)
    ensures
        s@ == frame_shortage(requested, available),
{
    format!("request {} frames, but only {} frames are available", requested, available)
}

impl UMemBuilder {
    /// A builder with libxdp's defaults and no chunk count.
    pub fn new() -> (r: Self)
        ensures
            r@ == UMemSettings::initial(),
    {
        UMemBuilder {
            chunk_size: XSK_UMEM__DEFAULT_FRAME_SIZE,
            num_chunks: None,
            frame_headroom: XSK_UMEM__DEFAULT_FRAME_HEADROOM,
            fill_queue_size: XSK_RING_PROD__DEFAULT_NUM_DESCS,
            completion_queue_size: XSK_RING_CONS__DEFAULT_NUM_DESCS,
        }
    }

    /// The settings collected so far.
    pub fn settings(&self) -> (r: UMemSettings)
        ensures
            r == self@,
    {
        UMemSettings {
            chunk_size: self.chunk_size,
            num_chunks: self.num_chunks,
            frame_headroom: self.frame_headroom,
            fill_queue_size: self.fill_queue_size,
            completion_queue_size: self.completion_queue_size,
        }
    }

    /// Sets the size of each chunk.
    pub fn chunk_size(self, chunk_size: u32) -> (r: Self)
        ensures
            r@ == (UMemSettings { chunk_size, ..self@ }),
    {
        UMemBuilder { chunk_size, ..self }
    }

    /// Sets the number of chunks.
    pub fn num_chunks(self, num_chunks: u32) -> (r: Self)
        ensures
            r@ == (UMemSettings { num_chunks: Some(num_chunks), ..self@ }),
    {
        UMemBuilder { num_chunks: Some(num_chunks), ..self }
    }

    /// Sets the headroom in front of each frame.
    pub fn frame_headroom(self, frame_headroom: u32) -> (r: Self)
        ensures
            r@ == (UMemSettings { frame_headroom, ..self@ }),
    {
        UMemBuilder { frame_headroom, ..self }
    }

    /// Sets the size of the fill ring.
    pub fn fill_queue_size(self, fill_queue_size: u32) -> (r: Self)
        ensures
            r@ == (UMemSettings { fill_queue_size, ..self@ }),
    {
        UMemBuilder { fill_queue_size, ..self }
    }

    /// Sets the size of the completion ring.
    pub fn completion_queue_size(self, completion_queue_size: u32) -> (r: Self)
        ensures
            r@ == (UMemSettings { completion_queue_size, ..self@ }),
    {
        UMemBuilder { completion_queue_size, ..self }
    }

    /// Maps the memory and lays out its chunks.
    ///
    /// Refused when no chunk count was set, or when the UMem would be empty;
    /// otherwise the pool holds every chunk, in address order.
    pub fn build(self) -> (res: Result<UMem, CamelliaError>)
        requires
            self@.num_chunks matches Some(n) ==> self@.chunk_size * n <= u32::MAX,
        ensures
            self@.num_chunks is None ==> (res matches Err(CamelliaError::InvalidArgument(msg))
                && msg@ == "number of chunks must be specified"@),
            self@.num_chunks matches Some(n) && self@.chunk_size * n == 0 ==> (res matches Err(
                CamelliaError::InvalidArgument(msg),
            ) && msg@ == "mmap size could not be zero"@),
            res matches Ok(umem) ==> {
                &&& self@.num_chunks matches Some(n)
                &&& umem.wf()
                &&& umem.chunk_size == self@.chunk_size
                &&& umem.num_chunks == n
                &&& umem.config == self@.config()
                &&& umem.chunks@ == all_chunks(self@.chunk_size, n)
            },
            self@.num_chunks matches Some(n) && self@.chunk_size * n > 0 ==> (res is Ok
                || res matches Err(CamelliaError::SystemError(_))),
    {
        match self.num_chunks {
            None => Err(
                CamelliaError::InvalidArgument("number of chunks must be specified".to_owned()),
            ),
            Some(num_chunks) => {
                let xsk_config = UMemConfig {
                    frame_size: self.chunk_size,
                    frame_headroom: self.frame_headroom,
                    fill_size: self.fill_queue_size,
                    comp_size: self.completion_queue_size,
                    flags: 0,
                };
                UMem::new(self.chunk_size, num_chunks, xsk_config)
            },
        }
    }
}

/// The offsets of all chunks of a UMem, in address order.
pub open spec fn all_chunks(chunk_size: u32, num_chunks: u32) -> Seq<usize> {
    Seq::new(num_chunks as nat, |i: int| (i * chunk_size) as usize)
}

/// `addr + chunk_size` stays within a UMem of `num_chunks` chunks when `addr`
/// is a chunk offset of it.
pub proof fn lemma_chunk_fits(addr: int, chunk_size: int, num_chunks: int)
    requires
        chunk_size > 0,
        0 <= addr < chunk_size * num_chunks,
        addr % chunk_size == 0,
    ensures
        addr + chunk_size <= chunk_size * num_chunks,
{
    vstd::arithmetic::div_mod::lemma_fundamental_div_mod(addr, chunk_size);
    let q = addr / chunk_size;
    assert(q < num_chunks) by (nonlinear_arith)
        requires
            addr == chunk_size * q,
            addr < chunk_size * num_chunks,
            chunk_size > 0,
    ;
    assert(chunk_size * q + chunk_size <= chunk_size * num_chunks) by (nonlinear_arith)
        requires
            q < num_chunks,
            chunk_size > 0,
    ;
}

/// The memory of an AF_XDP UMem and its pool of free chunks.
#[derive(Debug)]
pub struct UMem {
    /// The mapped memory.
    pub area: Arc<MMapArea>,
    /// Offsets of the free chunks; `allocate` takes from the front and `free`
    /// appends.
    pub chunks: Vec<usize>,
    /// Size of each chunk in bytes.
    pub chunk_size: u32,
    /// Number of chunks the UMem was made with.
    pub num_chunks: u32,
    /// The configuration the UMem is created with.
    pub config: UMemConfig,
}

impl UMem {
    /// Bytes in the UMem.
    pub open spec fn capacity(&self) -> int {
        self.chunk_size * self.num_chunks
    }

    /// `addr` is the offset of one of the UMem's chunks.
    pub open spec fn holds_chunk(&self, addr: usize) -> bool {
        addr < self.capacity() && addr as int % (self.chunk_size as int) == 0
    }

    /// The memory is mapped, its size is that of all chunks, and the pool holds
    /// only offsets of chunks of this UMem.
    pub open spec fn wf(&self) -> bool {
        &&& self.chunk_size > 0
        &&& (*self.area).wf()
        &&& (*self.area).length() == self.capacity()
        &&& forall|i: int| 0 <= i < self.chunks@.len() ==> self.holds_chunk(#[trigger] self.chunks@[i])
    }

    /// The chunk at offset `addr`, as the UMem hands it out.
    pub open spec fn chunk_at(&self, addr: usize, chunk: Chunk) -> bool {
        &&& chunk.xdp_address == addr
        &&& chunk.size == self.chunk_size
        &&& chunk.mmap_area == self.area
    }

    fn new(chunk_size: u32, num_chunks: u32, config: UMemConfig) -> (res: Result<Self, CamelliaError>)
        requires
            chunk_size * num_chunks <= u32::MAX,
        ensures
            chunk_size * num_chunks == 0 ==> (res matches Err(CamelliaError::InvalidArgument(msg))
                && msg@ == "mmap size could not be zero"@),
            res matches Ok(umem) ==> {
                &&& umem.wf()
                &&& umem.chunk_size == chunk_size
                &&& umem.num_chunks == num_chunks
                &&& umem.config == config
                &&& umem.chunks@ == all_chunks(chunk_size, num_chunks)
            },
            chunk_size * num_chunks > 0 ==> (res is Ok || res matches Err(
                CamelliaError::SystemError(_),
            )),
    {
        let mmap_size = chunk_size * num_chunks;
        let area = match MMapArea::new(mmap_size as usize) {
            Ok(area) => Arc::new(area),
            Err(e) => return Err(e),
        };
        assert(chunk_size > 0 && num_chunks > 0) by (nonlinear_arith)
            requires
                chunk_size * num_chunks != 0,
        ;
        let mut chunks: Vec<usize> = Vec::new();
        let mut i: u32 = 0;
        while i < num_chunks
            invariant
                i <= num_chunks,
                chunk_size > 0,
                chunk_size * num_chunks <= u32::MAX,
                chunks@ == all_chunks(chunk_size, i),
                forall|j: int|
                    0 <= j < chunks@.len() ==> 0 <= #[trigger] chunks@[j] < chunk_size * num_chunks
                        && chunks@[j] as int % (chunk_size as int) == 0,
            decreases num_chunks - i,
        {
            assert(i * chunk_size < chunk_size * num_chunks) by (nonlinear_arith)
                requires
                    i < num_chunks,
                    chunk_size > 0,
            ;
            assert((i * chunk_size) % (chunk_size as int) == 0) by (nonlinear_arith)
                requires
                    chunk_size > 0,
            ;
            let offset = i * chunk_size;
            chunks.push(offset as usize);
            i = i + 1;
            assert(chunks@ =~= all_chunks(chunk_size, i));
        }
        Ok(UMem { area, chunks, chunk_size, num_chunks, config })
    }

    /// Takes the first `n` chunks of the pool.
    ///
    /// Refused, with the pool unchanged, when fewer than `n` chunks are free.
    /// A well-formed UMem stays well formed and hands out chunks that lie in
    /// its memory.
    pub fn allocate(&mut self, n: usize) -> (res: Result<Vec<Chunk>, CamelliaError>)
        ensures
            old(self).wf() ==> final(self).wf(),
            final(self).area == old(self).area,
            final(self).chunk_size == old(self).chunk_size,
            final(self).num_chunks == old(self).num_chunks,
            final(self).config == old(self).config,
            old(self).chunks@.len() < n ==> {
                &&& final(self).chunks@ == old(self).chunks@
                &&& res matches Err(CamelliaError::InvalidArgument(msg))
                &&& msg@ == pool_shortage(n, old(self).chunks@.len() as usize)
            },
            n <= old(self).chunks@.len() ==> {
                &&& final(self).chunks@ == old(self).chunks@.skip(n as int)
                &&& res matches Ok(v) && v@.len() == n && forall|i: int|
                    0 <= i < n ==> old(self).chunk_at(old(self).chunks@[i], #[trigger] v@[i]) && (
                    old(self).wf() ==> v@[i].wf())
            },
    {
        if self.chunks.len() < n {
            return Err(CamelliaError::InvalidArgument(pool_shortage_message(n, self.chunks.len())));
        }
        let ghost was_wf = self.wf();
        let taken = self.allocate_prefix(n);
        let mut frames: Vec<Chunk> = Vec::new();
        let mut i: usize = 0;
        while i < taken.len()
            invariant
                was_wf == old(self).wf(),
                was_wf ==> self.wf(),
                i <= taken@.len(),
                taken@.len() == n,
                taken@ == old(self).chunks@.take(n as int),
                was_wf ==> forall|k: int| 0 <= k < taken@.len() ==> self.holds_chunk(#[trigger] taken@[k]),
                self.area == old(self).area,
                self.chunk_size == old(self).chunk_size,
                self.num_chunks == old(self).num_chunks,
                frames@.len() == i,
                forall|k: int|
                    0 <= k < i ==> self.chunk_at(taken@[k], #[trigger] frames@[k]) && (was_wf
                        ==> frames@[k].wf()),
            decreases taken@.len() - i,
        {
            let address = taken[i];
            let chunk = Chunk {
                xdp_address: address,
                size: self.chunk_size as usize,
                mmap_area: share_area(&self.area),
            };
            proof {
                if was_wf {
                    assert(self.holds_chunk(taken@[i as int]));
                    lemma_chunk_fits(address as int, self.chunk_size as int, self.num_chunks as int);
                    assert(chunk.area_base() == (*self.area).base());
                    assert((*self.area).base() + (*self.area).length() <= usize::MAX);
                    assert(chunk.wf());
                }
            }
            frames.push(chunk);
            i = i + 1;
        }
        Ok(frames)
    }

    /// Removes the first `n` offsets from the pool and returns them.
    fn allocate_prefix(&mut self, n: usize) -> (taken: Vec<usize>)
        requires
            n <= old(self).chunks@.len(),
        ensures
            old(self).wf() ==> final(self).wf(),
            old(self).wf() ==> forall|k: int|
                0 <= k < taken@.len() ==> old(self).holds_chunk(#[trigger] taken@[k]),
            final(self).area == old(self).area,
            final(self).chunk_size == old(self).chunk_size,
            final(self).num_chunks == old(self).num_chunks,
            final(self).config == old(self).config,
            final(self).chunks@ == old(self).chunks@.skip(n as int),
            taken@ == old(self).chunks@.take(n as int),
    {
        let mut rest = self.chunks.split_off(n);
        std::mem::swap(&mut self.chunks, &mut rest);
        proof {
            if old(self).wf() {
                assert forall|k: int| 0 <= k < rest@.len() implies old(self).holds_chunk(
                    #[trigger] rest@[k],
                ) by {
                    assert(rest@[k] == old(self).chunks@[k]);
                }
                assert forall|k: int| 0 <= k < self.chunks@.len() implies self.holds_chunk(
                    #[trigger] self.chunks@[k],
                ) by {
                    assert(self.chunks@[k] == old(self).chunks@[k + n]);
                }
            }
        }
        rest
    }

    /// Returns chunks to the back of the pool, in order. The UMem stays well
    /// formed when the chunks are its own.
    pub fn free(&mut self, chunks: Vec<Chunk>)
        ensures
            old(self).wf() && (forall|i: int|
                0 <= i < chunks@.len() ==> old(self).holds_chunk(#[trigger] chunks@[i].xdp_address))
                ==> final(self).wf(),
            final(self).area == old(self).area,
            final(self).chunk_size == old(self).chunk_size,
            final(self).num_chunks == old(self).num_chunks,
            final(self).config == old(self).config,
            final(self).chunks@ == old(self).chunks@ + chunks@.map_values(|c: Chunk| c.xdp_address),
    {
        let ghost keeps = old(self).wf() && (forall|i: int|
            0 <= i < chunks@.len() ==> old(self).holds_chunk(#[trigger] chunks@[i].xdp_address));
        let mut i: usize = 0;
        while i < chunks.len()
            invariant
                keeps == (old(self).wf() && (forall|k: int|
                    0 <= k < chunks@.len() ==> old(self).holds_chunk(
                        #[trigger] chunks@[k].xdp_address,
                    ))),
                keeps ==> self.wf(),
                i <= chunks@.len(),
                self.area == old(self).area,
                self.chunk_size == old(self).chunk_size,
                self.num_chunks == old(self).num_chunks,
                self.config == old(self).config,
                self.chunks@ == old(self).chunks@ + chunks@.take(i as int).map_values(
                    |c: Chunk| c.xdp_address,
                ),
            decreases chunks@.len() - i,
        {
            let address = chunks[i].xdp_address;
            self.chunks.push(address);
            i = i + 1;
            assert(chunks@.take(i as int).map_values(|c: Chunk| c.xdp_address) =~= chunks@.take(
                i - 1,
            ).map_values(|c: Chunk| c.xdp_address).push(address));
        }
        assert(chunks@.take(i as int) =~= chunks@);
    }

    /// Takes the first `n` chunk offsets of the pool.
    ///
    /// Refused, with the pool unchanged, when fewer than `n` chunks are free.
    pub fn allocate_raw(&mut self, n: usize) -> (res: Result<Vec<usize>, CamelliaError>)
        ensures
            old(self).wf() ==> final(self).wf(),
            final(self).area == old(self).area,
            final(self).chunk_size == old(self).chunk_size,
            final(self).num_chunks == old(self).num_chunks,
            final(self).config == old(self).config,
            old(self).chunks@.len() < n ==> {
                &&& final(self).chunks@ == old(self).chunks@
                &&& res matches Err(CamelliaError::InvalidArgument(msg))
                &&& msg@ == pool_shortage(n, old(self).chunks@.len() as usize)
            },
            n <= old(self).chunks@.len() ==> {
                &&& final(self).chunks@ == old(self).chunks@.skip(n as int)
                &&& res matches Ok(v) && v@ == old(self).chunks@.take(n as int)
            },
    {
        if self.chunks.len() < n {
            return Err(CamelliaError::InvalidArgument(pool_shortage_message(n, self.chunks.len())));
        }
        Ok(self.allocate_prefix(n))
    }

    /// Returns chunk offsets to the back of the pool, in order. The UMem stays
    /// well formed when the offsets are of its chunks.
    pub fn free_raw(&mut self, chunks: Vec<usize>)
        ensures
            old(self).wf() && (forall|i: int|
                0 <= i < chunks@.len() ==> old(self).holds_chunk(#[trigger] chunks@[i]))
                ==> final(self).wf(),
            final(self).area == old(self).area,
            final(self).chunk_size == old(self).chunk_size,
            final(self).num_chunks == old(self).num_chunks,
            final(self).config == old(self).config,
            final(self).chunks@ == old(self).chunks@ + chunks@,
    {
        let mut chunks = chunks;
        let ghost added = chunks@;
        self.chunks.append(&mut chunks);
        proof {
            if old(self).wf() && (forall|i: int|
                0 <= i < added.len() ==> old(self).holds_chunk(#[trigger] added[i])) {
                assert forall|k: int| 0 <= k < self.chunks@.len() implies self.holds_chunk(
                    #[trigger] self.chunks@[k],
                ) by {
                    if k >= old(self).chunks@.len() {
                        assert(self.chunks@[k] == added[k - old(self).chunks@.len()]);
                    } else {
                        assert(self.chunks@[k] == old(self).chunks@[k]);
                    }
                }
            }
        }
    }
}


/// Handing out the first `n` chunks of a pool and later freeing them leaves
/// the pool with the same chunks: `allocate` keeps `pool.skip(n)` and hands out
/// `pool.take(n)`, and `free` appends what it is given.
pub proof fn lemma_allocate_free_keeps_chunks(pool: Seq<usize>, n: int)
    requires
        0 <= n <= pool.len(),
    ensures
        (pool.skip(n) + pool.take(n)).to_multiset() == pool.to_multiset(),
{
    vstd::seq_lib::lemma_multiset_commutative(pool.skip(n), pool.take(n));
    vstd::seq_lib::lemma_multiset_commutative(pool.take(n), pool.skip(n));
    assert(pool.take(n) + pool.skip(n) =~= pool);
}

/// A new UMem's pool holds each chunk once.
pub proof fn lemma_all_chunks_distinct(chunk_size: u32, num_chunks: u32)
    requires
        chunk_size > 0,
        chunk_size * num_chunks <= u32::MAX,
    ensures
        all_chunks(chunk_size, num_chunks).no_duplicates(),
{
    let s = all_chunks(chunk_size, num_chunks);
    assert forall|i: int, j: int| 0 <= i < s.len() && 0 <= j < s.len() && i != j implies s[i]
        != s[j] by {
        assert(i * chunk_size <= u32::MAX && j * chunk_size <= u32::MAX) by (nonlinear_arith)
            requires
                0 <= i < num_chunks,
                0 <= j < num_chunks,
                chunk_size * num_chunks <= u32::MAX,
                chunk_size > 0,
        ;
        assert(i * chunk_size != j * chunk_size) by (nonlinear_arith)
            requires
                i != j,
                chunk_size > 0,
        ;
    }
}

/// From a pool that holds each chunk once, `allocate` hands out distinct
/// chunks none of which stays in the pool, and the pool still holds each
/// remaining chunk once.
pub proof fn lemma_allocated_chunks_leave_pool(pool: Seq<usize>, n: int)
    requires
        pool.no_duplicates(),
        0 <= n <= pool.len(),
    ensures
        pool.take(n).no_duplicates(),
        pool.skip(n).no_duplicates(),
        forall|i: int| 0 <= i < n ==> !pool.skip(n).contains(#[trigger] pool[i]),
{
    assert forall|i: int| 0 <= i < n implies !pool.skip(n).contains(#[trigger] pool[i]) by {
        if pool.skip(n).contains(pool[i]) {
            let j = choose|j: int| 0 <= j < pool.skip(n).len() && pool.skip(n)[j] == pool[i];
            assert(pool[j + n] == pool[i]);
        }
    }
    assert forall|i: int, j: int|
        0 <= i < pool.take(n).len() && 0 <= j < pool.take(n).len() && i != j implies pool.take(
        n,
    )[i] != pool.take(n)[j] by {
        assert(pool.take(n)[i] == pool[i] && pool.take(n)[j] == pool[j]);
    }
    assert forall|i: int, j: int|
        0 <= i < pool.skip(n).len() && 0 <= j < pool.skip(n).len() && i != j implies pool.skip(
        n,
    )[i] != pool.skip(n)[j] by {
        assert(pool.skip(n)[i] == pool[i + n] && pool.skip(n)[j] == pool[j + n]);
    }
}

/// Rounding `addr` down to a multiple of `chunk_size` gives the start of the
/// chunk that holds `addr`.
pub proof fn lemma_round_down(addr: int, chunk_size: int)
    requires
        chunk_size > 0,
        addr >= 0,
    ensures
        (addr - addr % chunk_size) % chunk_size == 0,
        0 <= addr - addr % chunk_size <= addr < addr - addr % chunk_size + chunk_size,
{
    vstd::arithmetic::div_mod::lemma_fundamental_div_mod(addr, chunk_size);
    vstd::arithmetic::div_mod::lemma_mod_bound(addr, chunk_size);
    let q = addr / chunk_size;
    assert(addr - addr % chunk_size == q * chunk_size) by (nonlinear_arith)
        requires
            addr == chunk_size * q + addr % chunk_size,
    ;
    vstd::arithmetic::div_mod::lemma_mod_multiples_basic(q, chunk_size);
}

/// A UMem used by a single socket: it fills the socket's fill ring from its
/// pool and takes completed chunks straight back.
#[derive(Debug)]
pub struct DedicatedAccessor {
    base: UMem,
    tx_issued_num: u32,
}

impl DedicatedAccessor {
    /// The pool is that of a well-formed UMem.
    pub open spec fn wf(&self) -> bool {
        self.pool_of().wf()
    }

    /// The UMem and its pool.
    pub closed spec fn pool_of(&self) -> UMem {
        self.base
    }

    /// How many chunks were handed to the TX ring.
    pub closed spec fn issued_of(&self) -> u32 {
        self.tx_issued_num
    }

    /// Everything but the pool's free list and the send count is as in `other`.
    pub open spec fn same_umem(&self, other: DedicatedAccessor) -> bool {
        &&& self.pool_of().area == other.pool_of().area
        &&& self.pool_of().chunk_size == other.pool_of().chunk_size
        &&& self.pool_of().num_chunks == other.pool_of().num_chunks
        &&& self.pool_of().config == other.pool_of().config
    }

    /// An accessor over `base` with nothing sent yet.
    pub fn new(base: UMem) -> (res: Result<Self, CamelliaError>)
        ensures
            res matches Ok(a) && a.pool_of() == base && a.issued_of() == 0,
    {
        let umem = DedicatedAccessor { tx_issued_num: 0, base };
        Ok(umem)
    }

    /// The UMem behind the accessor.
    pub fn umem(&self) -> (r: &UMem)
        ensures
            *r == self.pool_of(),
    {
        &self.base
    }

    /// How many chunks were handed to the TX ring.
    pub fn tx_issued_num(&self) -> (r: u32)
        ensures
            r == self.issued_of(),
    {
        self.tx_issued_num
    }

    /// Takes `n` chunks from the pool for the application.
    ///
    /// Refused, with the pool unchanged, when fewer than `n` chunks are free.
    pub fn allocate(&mut self, n: usize) -> (res: Result<Vec<Chunk>, CamelliaError>)
        ensures
            old(self).wf() ==> final(self).wf(),
            final(self).same_umem(*old(self)),
            final(self).issued_of() == old(self).issued_of(),
            old(self).pool_of().chunks@.len() < n ==> {
                &&& final(self).pool_of() == old(self).pool_of()
                &&& res matches Err(CamelliaError::ResourceExhausted(msg))
                &&& msg@ == frame_shortage(n, old(self).pool_of().chunks@.len() as usize)
            },
            n <= old(self).pool_of().chunks@.len() ==> {
                &&& final(self).pool_of().chunks@ == old(self).pool_of().chunks@.skip(n as int)
                &&& res matches Ok(v) && v@.len() == n && forall|i: int|
                    0 <= i < n ==> old(self).pool_of().chunk_at(
                        old(self).pool_of().chunks@[i],
                        #[trigger] v@[i],
                    ) && (old(self).wf() ==> v@[i].wf())
            },
    {
        if self.base.chunks.len() < n {
            return Err(
                CamelliaError::ResourceExhausted(frame_shortage_message(n, self.base.chunks.len())),
            );
        }
        self.base.allocate(n)
    }

    /// Moves chunks from the front of the pool into the fill ring, as many as
    /// the ring reserved (`reserved`) and the pool holds; returns them.
    pub fn fill(&mut self, reserved: u32) -> (filled: Vec<usize>)
        ensures
            old(self).wf() ==> final(self).wf(),
            final(self).same_umem(*old(self)),
            final(self).issued_of() == old(self).issued_of(),
            filled@.len() == if old(self).pool_of().chunks@.len() < reserved as int {
                old(self).pool_of().chunks@.len() as int
            } else {
                reserved as int
            },
            filled@ == old(self).pool_of().chunks@.take(filled@.len() as int),
            final(self).pool_of().chunks@ == old(self).pool_of().chunks@.skip(
                filled@.len() as int,
            ),
    {
        let ghost before = self.base.chunks@;
        let filled = populate_fill_ring(&mut self.base.chunks, reserved);
        proof {
            if old(self).wf() {
                assert forall|k: int| 0 <= k < self.base.chunks@.len() implies self.base.holds_chunk(
                    #[trigger] self.base.chunks@[k],
                ) by {
                    assert(self.base.chunks@[k] == before[k + filled@.len()]);
                }
            }
        }
        filled
    }

    /// Returns a chunk to the back of the pool.
    pub fn free(&mut self, chunk: Chunk)
        ensures
            old(self).wf() && old(self).pool_of().holds_chunk(chunk.xdp_address) ==> final(self).wf(),
            final(self).same_umem(*old(self)),
            final(self).issued_of() == old(self).issued_of(),
            final(self).pool_of().chunks@ == old(self).pool_of().chunks@.push(chunk.xdp_address),
    {
        let ghost addr = chunk.xdp_address;
        let mut freed: Vec<Chunk> = Vec::new();
        freed.push(chunk);
        self.base.free(freed);
        assert(seq![addr] =~= freed@.map_values(|c: Chunk| c.xdp_address));
    }

    /// Returns the chunks whose transmission completed (the addresses that
    /// `xsk_ring_cons__peek` handed out of the completion ring, at most
    /// `tx_issued_num` of them) to the back of the pool, in order, as they
    /// are; returns how many.
    pub fn recycle(&mut self, completed: &[u64]) -> (n: usize)
        ensures
            n == completed@.len(),
            old(self).wf() && (forall|i: int|
                0 <= i < completed@.len() ==> old(self).pool_of().holds_chunk(
                    #[trigger] completed@[i] as usize,
                )) ==> final(self).wf(),
            final(self).same_umem(*old(self)),
            final(self).issued_of() == old(self).issued_of(),
            final(self).pool_of().chunks@ == old(self).pool_of().chunks@ + completed@.map_values(
                |a: u64| a as usize,
            ),
    {
        let ghost keeps = old(self).wf() && (forall|i: int|
            0 <= i < completed@.len() ==> old(self).pool_of().holds_chunk(
                #[trigger] completed@[i] as usize,
            ));
        let mut i: usize = 0;
        while i < completed.len()
            invariant
                keeps == (old(self).wf() && (forall|j: int|
                    0 <= j < completed@.len() ==> old(self).pool_of().holds_chunk(
                        #[trigger] completed@[j] as usize,
                    ))),
                keeps ==> self.wf(),
                i <= completed@.len(),
                self.same_umem(*old(self)),
                self.tx_issued_num == old(self).issued_of(),
                self.base.chunks@ == old(self).pool_of().chunks@ + completed@.take(i as int).map_values(
                    |a: u64| a as usize,
                ),
            decreases completed@.len() - i,
        {
            let xdp_addr = completed[i] as usize;
            let mut one: Vec<usize> = Vec::new();
            one.push(xdp_addr);
            proof {
                if keeps {
                    assert(self.base.holds_chunk(one@[0]));
                }
            }
            self.base.free_raw(one);
            i = i + 1;
            assert(completed@.take(i as int).map_values(|a: u64| a as usize) =~= completed@.take(
                i - 1,
            ).map_values(|a: u64| a as usize).push(xdp_addr));
        }
        assert(completed@.take(i as int) =~= completed@);
        i
    }

    /// The chunk that holds a received UMem address: the address rounded down
    /// to a multiple of the chunk size. For an address inside a well-formed
    /// UMem it is one of the UMem's chunks.
    pub fn extract_recv(&mut self, xdp_addr: u64) -> (chunk: Chunk)
        requires
            old(self).pool_of().chunk_size > 0,
            xdp_addr <= usize::MAX,
        ensures
            *final(self) == *old(self),
            chunk.xdp_address == xdp_addr - xdp_addr % (old(self).pool_of().chunk_size as u64),
            old(self).pool_of().chunk_at(chunk.xdp_address, chunk),
            chunk.xdp_address <= xdp_addr < chunk.xdp_address + chunk.size,
            old(self).wf() && xdp_addr < old(self).pool_of().capacity() ==> {
                &&& old(self).pool_of().holds_chunk(chunk.xdp_address)
                &&& chunk.wf()
            },
    {
        let cs = self.base.chunk_size as u64;
        proof {
            lemma_round_down(xdp_addr as int, cs as int);
            if self.wf() && xdp_addr < self.base.capacity() {
                lemma_chunk_fits(
                    xdp_addr as int - (xdp_addr as int) % (cs as int),
                    cs as int,
                    self.base.num_chunks as int,
                );
            }
        }
        let base_address = xdp_addr - (xdp_addr % cs);
        Chunk {
            xdp_address: base_address as usize,
            size: self.base.chunk_size as usize,
            mmap_area: share_area(&self.base.area),
        }
    }

    /// Counts a chunk handed to the TX ring; the chunk stays with the kernel
    /// until its completion is recycled.
    pub fn register_send(&mut self, _chunk: Chunk)
        requires
            old(self).issued_of() < u32::MAX,
        ensures
            final(self).issued_of() == old(self).issued_of() + 1,
            final(self).pool_of() == old(self).pool_of(),
    {
        self.tx_issued_num = self.tx_issued_num + 1;
    }
}

} // verus!
