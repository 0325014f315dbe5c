use std::sync::Arc;
use vstd::prelude::*;

use crate::error::CamelliaError;
use crate::umem::base::{frame_shortage, lemma_chunk_fits, lemma_round_down, pool_shortage, UMem};
use crate::umem::frame::{share_area, Chunk};
use crate::umem::libxdp::{completed_bases, populate_fill_ring, recycle_compeletion_ring};
use crate::umem::mmap::MMapArea;

verus! {

/// The size of the chunk cache: above it half of the cache goes back to the
/// shared pool, and a refill takes half of it on top of what is missing.
pub const SHARED_UMEM_DEFAULT_CHUNK_SIZE: usize = 128;

/// One socket's view of a UMem shared by several sockets.
///
/// Each socket keeps a cache of free chunks, refilled from and drained into the
/// shared pool, which callers pass in while they hold its lock.
#[derive(Debug)]
pub struct SharedAccessor {
    umem_id: usize,
    mmap_area: Arc<MMapArea>,
    cached_chunks: Vec<usize>,
    chunk_size: u32,
    num_chunks: u32,
    tx_issued_num: usize,
}

impl SharedAccessor {
    /// The chunks cached by this socket.
    pub closed spec fn cache_of(&self) -> Seq<usize> {
        self.cached_chunks@
    }

    /// How many chunks were handed to the TX ring and have not completed.
    pub closed spec fn issued_of(&self) -> usize {
        self.tx_issued_num
    }

    /// The identity of the shared UMem.
    pub closed spec fn umem_id_of(&self) -> usize {
        self.umem_id
    }

    /// The accessor was made for the shared UMem `shared`: same memory, same
    /// chunk layout.
    pub closed spec fn serves(&self, shared: UMem) -> bool {
        &&& shared.area == self.mmap_area
        &&& shared.chunk_size == self.chunk_size
        &&& shared.num_chunks == self.num_chunks
    }

    /// `shared` is well formed, the accessor serves it, and the cache holds
    /// only chunk offsets of it.
    pub open spec fn wf(&self, shared: UMem) -> bool {
        &&& shared.wf()
        &&& self.serves(shared)
        &&& forall|i: int| 0 <= i < self.cache_of().len() ==> shared.holds_chunk(#[trigger] self.cache_of()[i])
    }

    /// `after` belongs to the same UMem as `self`.
    pub closed spec fn same_umem(&self, after: SharedAccessor) -> bool {
        &&& after.mmap_area == self.mmap_area
        &&& after.chunk_size == self.chunk_size
        &&& after.num_chunks == self.num_chunks
        &&& after.umem_id == self.umem_id
    }

    /// Accessors of the same UMem serve the same pools and have one identity.
    pub proof fn lemma_same_umem_serves(&self, after: SharedAccessor, shared: UMem)
        requires
            self.same_umem(after),
        ensures
            self.serves(shared) == after.serves(shared),
            self.umem_id_of() == after.umem_id_of(),
    {
    }

    /// A socket's accessor to `shared`, whose identity is `umem_id`, with an
    /// empty cache.
    pub fn new(shared: &UMem, umem_id: usize) -> (res: Result<SharedAccessor, CamelliaError>)
        ensures
            res matches Ok(a) && a.serves(*shared) && a.cache_of() == Seq::<usize>::empty()
                && a.issued_of() == 0 && a.umem_id_of() == umem_id,
            shared.wf() ==> (res matches Ok(a) && a.wf(*shared)),
    {
        let chunk_size = shared.chunk_size;
        let mmap_area = share_area(&shared.area);
        Ok(SharedAccessor {
            umem_id,
            mmap_area,
            cached_chunks: Vec::new(),
            chunk_size,
            num_chunks: shared.num_chunks,
            tx_issued_num: 0,
        })
    }

    /// The identity of the shared UMem.
    pub fn umem_id(&self) -> (r: usize)
        ensures
            r == self.umem_id_of(),
    {
        self.umem_id
    }

    /// How many chunks were handed to the TX ring and have not completed.
    pub fn tx_issued_num(&self) -> (r: usize)
        ensures
            r == self.issued_of(),
    {
        self.tx_issued_num
    }

    /// Makes sure the cache holds at least `n` chunks: when it holds fewer, it
    /// takes what is missing plus half a cache from the shared pool. Refused,
    /// with nothing changed, when the shared pool has not that many.
    pub fn pre_alloc(&mut self, shared: &mut UMem, n: usize) -> (res: Result<(), CamelliaError>)
        requires
            n + SHARED_UMEM_DEFAULT_CHUNK_SIZE / 2 <= usize::MAX,
        ensures
            old(self).wf(*old(shared)) ==> final(self).wf(*final(shared)),
            old(self).same_umem(*final(self)),
            final(self).issued_of() == old(self).issued_of(),
            final(shared).area == old(shared).area,
            final(shared).chunk_size == old(shared).chunk_size,
            final(shared).num_chunks == old(shared).num_chunks,
            final(shared).config == old(shared).config,
            n <= old(self).cache_of().len() ==> {
                &&& res is Ok
                &&& final(self).cache_of() == old(self).cache_of()
                &&& final(shared).chunks@ == old(shared).chunks@
            },
            n > old(self).cache_of().len() ==> {
                let wanted = SHARED_UMEM_DEFAULT_CHUNK_SIZE / 2 + n - old(self).cache_of().len();
                &&& wanted > old(shared).chunks@.len() ==> {
                    &&& res matches Err(CamelliaError::InvalidArgument(msg))
                    &&& msg@ == pool_shortage(wanted as usize, old(shared).chunks@.len() as usize)
                    &&& final(self).cache_of() == old(self).cache_of()
                    &&& final(shared).chunks@ == old(shared).chunks@
                }
                &&& wanted <= old(shared).chunks@.len() ==> {
                    &&& res is Ok
                    &&& final(self).cache_of() == old(self).cache_of() + old(shared).chunks@.take(
                        wanted,
                    )
                    &&& final(shared).chunks@ == old(shared).chunks@.skip(wanted)
                }
            },
    {
        if self.cached_chunks.len() < n {
            let wanted = SHARED_UMEM_DEFAULT_CHUNK_SIZE / 2 + n - self.cached_chunks.len();
            let ghost cache_before = self.cached_chunks@;
            let ghost pool_before = shared.chunks@;
            let ghost was_wf = self.wf(*shared);
            match shared.allocate_raw(wanted) {
                Ok(mut chunks) => {
                    self.cached_chunks.append(&mut chunks);
                    proof {
                        if was_wf {
                            assert forall|i: int| 0 <= i < self.cache_of().len() implies shared.holds_chunk(
                                #[trigger] self.cache_of()[i],
                            ) by {
                                if i < cache_before.len() {
                                    assert(self.cache_of()[i] == old(self).cache_of()[i]);
                                    assert(old(shared).holds_chunk(old(self).cache_of()[i]));
                                } else {
                                    assert(self.cache_of()[i] == pool_before[i - cache_before.len()]);
                                }
                            }
                        }
                    }
                },
                Err(e) => {
                    return Err(e);
                },
            }
        }
        Ok(())
    }

    /// When the cache holds more than a full cache of chunks, returns the first
    /// half cache of them to the back of the shared pool.
    pub fn after_free(&mut self, shared: &mut UMem)
        ensures
            old(self).wf(*old(shared)) ==> final(self).wf(*final(shared)),
            old(self).same_umem(*final(self)),
            final(self).issued_of() == old(self).issued_of(),
            final(shared).area == old(shared).area,
            final(shared).chunk_size == old(shared).chunk_size,
            final(shared).num_chunks == old(shared).num_chunks,
            final(shared).config == old(shared).config,
            old(self).cache_of().len() <= SHARED_UMEM_DEFAULT_CHUNK_SIZE ==> {
                &&& final(self).cache_of() == old(self).cache_of()
                &&& final(shared).chunks@ == old(shared).chunks@
            },
            old(self).cache_of().len() > SHARED_UMEM_DEFAULT_CHUNK_SIZE ==> {
                &&& final(self).cache_of() == old(self).cache_of().skip(
                    (SHARED_UMEM_DEFAULT_CHUNK_SIZE / 2) as int,
                )
                &&& final(shared).chunks@ == old(shared).chunks@ + old(self).cache_of().take(
                    (SHARED_UMEM_DEFAULT_CHUNK_SIZE / 2) as int,
                )
            },
    {
        if self.cached_chunks.len() > SHARED_UMEM_DEFAULT_CHUNK_SIZE {
            let ghost cache_before = self.cached_chunks@;
            let ghost was_wf = self.wf(*shared);
            let mut rest = self.cached_chunks.split_off(SHARED_UMEM_DEFAULT_CHUNK_SIZE / 2);
            std::mem::swap(&mut self.cached_chunks, &mut rest);
            proof {
                if was_wf {
                    assert forall|i: int| 0 <= i < rest@.len() implies shared.holds_chunk(
                        #[trigger] rest@[i],
                    ) by {
                        assert(rest@[i] == cache_before[i]);
                        assert(old(shared).holds_chunk(old(self).cache_of()[i]));
                    }
                }
            }
            shared.free_raw(rest);
            proof {
                if was_wf {
                    assert forall|i: int| 0 <= i < self.cache_of().len() implies shared.holds_chunk(
                        #[trigger] self.cache_of()[i],
                    ) by {
                        let j = i + SHARED_UMEM_DEFAULT_CHUNK_SIZE / 2;
                        assert(self.cache_of()[i] == old(self).cache_of()[j]);
                        assert(old(shared).holds_chunk(old(self).cache_of()[j]));
                    }
                }
            }
        }
    }

    /// Puts a chunk into the cache, then trims the cache as
    /// [`SharedAccessor::after_free`] does.
    pub fn free(&mut self, shared: &mut UMem, chunk: Chunk)
        ensures
            old(self).wf(*old(shared)) && old(shared).holds_chunk(chunk.xdp_address)
                ==> final(self).wf(*final(shared)),
            old(self).same_umem(*final(self)),
            final(self).issued_of() == old(self).issued_of(),
            final(shared).area == old(shared).area,
            final(shared).chunk_size == old(shared).chunk_size,
            final(shared).num_chunks == old(shared).num_chunks,
            ({
                let grown = old(self).cache_of().push(chunk.xdp_address);
                &&& grown.len() <= SHARED_UMEM_DEFAULT_CHUNK_SIZE ==> {
                    &&& final(self).cache_of() == grown
                    &&& final(shared).chunks@ == old(shared).chunks@
                }
                &&& grown.len() > SHARED_UMEM_DEFAULT_CHUNK_SIZE ==> {
                    &&& final(self).cache_of() == grown.skip(
                        (SHARED_UMEM_DEFAULT_CHUNK_SIZE / 2) as int,
                    )
                    &&& final(shared).chunks@ == old(shared).chunks@ + grown.take(
                        (SHARED_UMEM_DEFAULT_CHUNK_SIZE / 2) as int,
                    )
                }
            }),
    {
        let ghost before = self.cached_chunks@;
        self.cached_chunks.push(chunk.xdp_address);
        proof {
            if old(self).wf(*old(shared)) && old(shared).holds_chunk(chunk.xdp_address) {
                assert forall|i: int| 0 <= i < self.cache_of().len() implies shared.holds_chunk(
                    #[trigger] self.cache_of()[i],
                ) by {
                    if i < before.len() {
                        assert(self.cache_of()[i] == old(self).cache_of()[i]);
                        assert(old(shared).holds_chunk(old(self).cache_of()[i]));
                    }
                }
            }
        }
        self.after_free(shared);
    }

    /// Moves chunks from the front of the cache into the fill ring, as many as
    /// the ring reserved (`reserved`) and the cache holds, then trims the
    /// cache as [`SharedAccessor::after_free`] does. Returns the chunks to
    /// write into the ring. Callers first make room with
    /// [`SharedAccessor::pre_alloc`].
    pub fn fill(&mut self, shared: &mut UMem, reserved: u32) -> (filled: Vec<usize>)
        ensures
            old(self).wf(*old(shared)) ==> final(self).wf(*final(shared)),
            old(self).same_umem(*final(self)),
            final(self).issued_of() == old(self).issued_of(),
            final(shared).area == old(shared).area,
            final(shared).chunk_size == old(shared).chunk_size,
            final(shared).num_chunks == old(shared).num_chunks,
            filled@.len() == if old(self).cache_of().len() < reserved as int {
                old(self).cache_of().len() as int
            } else {
                reserved as int
            },
            filled@ == old(self).cache_of().take(filled@.len() as int),
            ({
                let left = old(self).cache_of().skip(filled@.len() as int);
                &&& left.len() <= SHARED_UMEM_DEFAULT_CHUNK_SIZE ==> {
                    &&& final(self).cache_of() == left
                    &&& final(shared).chunks@ == old(shared).chunks@
                }
                &&& left.len() > SHARED_UMEM_DEFAULT_CHUNK_SIZE ==> {
                    &&& final(self).cache_of() == left.skip(
                        (SHARED_UMEM_DEFAULT_CHUNK_SIZE / 2) as int,
                    )
                    &&& final(shared).chunks@ == old(shared).chunks@ + left.take(
                        (SHARED_UMEM_DEFAULT_CHUNK_SIZE / 2) as int,
                    )
                }
            }),
    {
        let ghost before = self.cached_chunks@;
        let filled = populate_fill_ring(&mut self.cached_chunks, reserved);
        proof {
            if old(self).wf(*old(shared)) {
                assert forall|i: int| 0 <= i < self.cache_of().len() implies shared.holds_chunk(
                    #[trigger] self.cache_of()[i],
                ) by {
                    let j = i + filled@.len();
                    assert(self.cache_of()[i] == old(self).cache_of()[j]);
                    assert(old(shared).holds_chunk(old(self).cache_of()[j]));
                }
            }
        }
        self.after_free(shared);
        filled
    }

    /// Puts the chunks whose transmission completed (the addresses that
    /// `xsk_ring_cons__peek` handed out of the completion ring) into the cache,
    /// each rounded down to the start of its chunk, counts them off the chunks
    /// in flight, then trims the cache as [`SharedAccessor::after_free`] does.
    pub fn recycle(&mut self, shared: &mut UMem, completed: &[u64]) -> (n: usize)
        requires
            old(self).serves(*old(shared)),
            old(shared).chunk_size > 0,
            completed@.len() <= old(self).issued_of(),
        ensures
            old(self).wf(*old(shared)) && (forall|i: int|
                0 <= i < completed@.len() ==> #[trigger] completed@[i] < old(shared).capacity())
                ==> final(self).wf(*final(shared)),
            old(self).same_umem(*final(self)),
            n == completed@.len(),
            final(self).issued_of() == old(self).issued_of() - n,
            final(shared).area == old(shared).area,
            final(shared).chunk_size == old(shared).chunk_size,
            final(shared).num_chunks == old(shared).num_chunks,
            ({
                let grown = old(self).cache_of() + completed_bases(completed@, old(shared).chunk_size);
                &&& grown.len() <= SHARED_UMEM_DEFAULT_CHUNK_SIZE ==> {
                    &&& final(self).cache_of() == grown
                    &&& final(shared).chunks@ == old(shared).chunks@
                }
                &&& grown.len() > SHARED_UMEM_DEFAULT_CHUNK_SIZE ==> {
                    &&& final(self).cache_of() == grown.skip(
                        (SHARED_UMEM_DEFAULT_CHUNK_SIZE / 2) as int,
                    )
                    &&& final(shared).chunks@ == old(shared).chunks@ + grown.take(
                        (SHARED_UMEM_DEFAULT_CHUNK_SIZE / 2) as int,
                    )
                }
            }),
    {
        let ghost before = self.cached_chunks@;
        let recycled = recycle_compeletion_ring(completed, self.chunk_size, &mut self.cached_chunks);
        self.tx_issued_num = self.tx_issued_num - recycled;
        proof {
            if old(self).wf(*old(shared)) && (forall|i: int|
                0 <= i < completed@.len() ==> #[trigger] completed@[i] < old(shared).capacity()) {
                let bases = completed_bases(completed@, self.chunk_size);
                assert forall|i: int| 0 <= i < self.cache_of().len() implies shared.holds_chunk(
                    #[trigger] self.cache_of()[i],
                ) by {
                    if i < before.len() {
                        assert(self.cache_of()[i] == old(self).cache_of()[i]);
                        assert(old(shared).holds_chunk(old(self).cache_of()[i]));
                    } else {
                        let j = i - before.len();
                        let a = completed@[j] as int;
                        lemma_round_down(a, self.chunk_size as int);
                        assert(self.cache_of()[i] == bases[j]);
                        assert(completed@[j] < shared.capacity());
                        assert(bases[j] as int == a - a % (self.chunk_size as int));
                        assert(bases[j] < shared.capacity());
                        assert(bases[j] as int % (shared.chunk_size as int) == 0);
                    }
                }
            }
        }
        self.after_free(shared);
        recycled
    }

    /// The chunk that holds a received UMem address: the address rounded down
    /// to a multiple of the chunk size. For an address inside a well-formed
    /// shared UMem it is one of its chunks.
    pub fn extract_recv(&mut self, shared: &UMem, xdp_addr: u64) -> (chunk: Chunk)
        requires
            old(self).serves(*shared),
            shared.chunk_size > 0,
            xdp_addr <= usize::MAX,
        ensures
            *final(self) == *old(self),
            chunk.xdp_address == xdp_addr - xdp_addr % (shared.chunk_size as u64),
            shared.chunk_at(chunk.xdp_address, chunk),
            chunk.xdp_address <= xdp_addr < chunk.xdp_address + chunk.size,
            old(self).wf(*shared) && xdp_addr < shared.capacity() ==> {
                &&& shared.holds_chunk(chunk.xdp_address)
                &&& chunk.wf()
            },
    {
        let cs = self.chunk_size as u64;
        proof {
            lemma_round_down(xdp_addr as int, cs as int);
            if self.wf(*shared) && xdp_addr < shared.capacity() {
                lemma_chunk_fits(
                    xdp_addr as int - (xdp_addr as int) % (cs as int),
                    cs as int,
                    self.num_chunks as int,
                );
            }
        }
        let base_address = xdp_addr - (xdp_addr % cs);
        Chunk {
            xdp_address: base_address as usize,
            size: self.chunk_size as usize,
            mmap_area: share_area(&self.mmap_area),
        }
    }

    /// Counts a chunk handed to the TX ring.
    pub fn register_send(&mut self, _chunk: Chunk)
        requires
            old(self).issued_of() < usize::MAX,
        ensures
            final(self).issued_of() == old(self).issued_of() + 1,
            final(self).cache_of() == old(self).cache_of(),
            old(self).same_umem(*final(self)),
            forall|shared: UMem| old(self).wf(shared) ==> final(self).wf(shared),
    {
        self.tx_issued_num = self.tx_issued_num + 1;
        proof {
            assert forall|shared: UMem| old(self).wf(shared) implies self.wf(shared) by {
                assert(self.serves(shared));
                assert(self.cache_of() == old(self).cache_of());
            }
        }
    }

    /// Takes `n` chunks for the application: first refills the cache as
    /// [`SharedAccessor::pre_alloc`] does (and fails as it does), then hands
    /// out the first `n` cached chunks.
    pub fn allocate(&mut self, shared: &mut UMem, n: usize) -> (res: Result<Vec<Chunk>, CamelliaError>)
        requires
            old(self).serves(*old(shared)),
            n + SHARED_UMEM_DEFAULT_CHUNK_SIZE / 2 <= usize::MAX,
        ensures
            old(self).wf(*old(shared)) ==> final(self).wf(*final(shared)),
            old(self).same_umem(*final(self)),
            final(self).issued_of() == old(self).issued_of(),
            final(shared).area == old(shared).area,
            final(shared).chunk_size == old(shared).chunk_size,
            final(shared).num_chunks == old(shared).num_chunks,
            n <= old(self).cache_of().len() ==> {
                &&& final(shared).chunks@ == old(shared).chunks@
                &&& final(self).cache_of() == old(self).cache_of().skip(n as int)
                &&& res matches Ok(v) && v@.len() == n && forall|i: int|
                    0 <= i < n ==> old(shared).chunk_at(old(self).cache_of()[i], #[trigger] v@[i])
                        && (old(self).wf(*old(shared)) ==> v@[i].wf())
            },
            n > old(self).cache_of().len() ==> {
                let wanted = SHARED_UMEM_DEFAULT_CHUNK_SIZE / 2 + n - old(self).cache_of().len();
                let cache = old(self).cache_of() + old(shared).chunks@.take(wanted);
                &&& wanted > old(shared).chunks@.len() ==> {
                    &&& res matches Err(CamelliaError::InvalidArgument(msg))
                    &&& msg@ == pool_shortage(wanted as usize, old(shared).chunks@.len() as usize)
                    &&& final(self).cache_of() == old(self).cache_of()
                    &&& final(shared).chunks@ == old(shared).chunks@
                }
                &&& wanted <= old(shared).chunks@.len() ==> {
                    &&& final(shared).chunks@ == old(shared).chunks@.skip(wanted)
                    &&& final(self).cache_of() == cache.skip(n as int)
                    &&& res matches Ok(v) && v@.len() == n && forall|i: int|
                        0 <= i < n ==> old(shared).chunk_at(cache[i], #[trigger] v@[i]) && (old(
                            self,
                        ).wf(*old(shared)) ==> v@[i].wf())
                }
            },
    {
        let ghost was_wf = self.wf(*shared);
        match self.pre_alloc(shared, n) {
            Ok(()) => {},
            Err(e) => {
                return Err(e);
            },
        }
        let ghost cache = self.cached_chunks@;
        let mut rest = self.cached_chunks.split_off(n);
        std::mem::swap(&mut self.cached_chunks, &mut rest);
        let taken = rest;
        let mut frames: Vec<Chunk> = Vec::new();
        let mut i: usize = 0;
        while i < taken.len()
            invariant
                was_wf ==> shared.wf(),
                self.serves(*shared),
                i <= taken@.len(),
                taken@ == cache.take(n as int),
                was_wf ==> forall|k: int| 0 <= k < taken@.len() ==> shared.holds_chunk(#[trigger] taken@[k]),
                frames@.len() == i,
                forall|k: int|
                    0 <= k < i ==> shared.chunk_at(taken@[k], #[trigger] frames@[k]) && (was_wf
                        ==> frames@[k].wf()),
            decreases taken@.len() - i,
        {
            let address = taken[i];
            let chunk = Chunk {
                xdp_address: address,
                size: self.chunk_size as usize,
                mmap_area: share_area(&self.mmap_area),
            };
            proof {
                if was_wf {
                    assert(shared.holds_chunk(taken@[i as int]));
                    lemma_chunk_fits(address as int, shared.chunk_size as int, shared.num_chunks as int);
                    assert(address + shared.chunk_size <= shared.capacity());
                    assert(chunk.wf());
                }
            }
            frames.push(chunk);
            i = i + 1;
        }
        proof {
            if was_wf {
                assert forall|k: int| 0 <= k < self.cache_of().len() implies shared.holds_chunk(
                    #[trigger] self.cache_of()[k],
                ) by {
                    assert(self.cache_of()[k] == cache[k + n]);
                }
            }
        }
        Ok(frames)
    }
}

/// Refilling the cache with the first `k` chunks of the pool (as
/// [`SharedAccessor::pre_alloc`] does) keeps the chunks of cache and pool
/// together.
pub proof fn lemma_refill_keeps_chunks(cache: Seq<usize>, pool: Seq<usize>, k: int)
    requires
        0 <= k <= pool.len(),
    ensures
        (cache + pool.take(k)).to_multiset().add(pool.skip(k).to_multiset()) == cache.to_multiset().add(
            pool.to_multiset(),
        ),
{
    broadcast use vstd::multiset::group_multiset_axioms;

    vstd::seq_lib::lemma_multiset_commutative(cache, pool.take(k));
    vstd::seq_lib::lemma_multiset_commutative(pool.take(k), pool.skip(k));
    assert(pool.take(k) + pool.skip(k) =~= pool);
    assert((cache + pool.take(k)).to_multiset().add(pool.skip(k).to_multiset()) =~= cache.to_multiset().add(
        pool.to_multiset(),
    ));
}

/// Returning the first `k` cached chunks to the back of the pool (as
/// [`SharedAccessor::after_free`] does) keeps the chunks of cache and pool
/// together.
pub proof fn lemma_trim_keeps_chunks(cache: Seq<usize>, pool: Seq<usize>, k: int)
    requires
        0 <= k <= cache.len(),
    ensures
        cache.skip(k).to_multiset().add((pool + cache.take(k)).to_multiset()) == cache.to_multiset().add(
            pool.to_multiset(),
        ),
{
    broadcast use vstd::multiset::group_multiset_axioms;

    vstd::seq_lib::lemma_multiset_commutative(pool, cache.take(k));
    vstd::seq_lib::lemma_multiset_commutative(cache.take(k), cache.skip(k));
    assert(cache.take(k) + cache.skip(k) =~= cache);
    assert(cache.skip(k).to_multiset().add((pool + cache.take(k)).to_multiset()) =~= cache.to_multiset().add(
        pool.to_multiset(),
    ));
}

} // verus!
