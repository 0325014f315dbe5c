use vstd::prelude::*;

use crate::error::{errno_from_raw, raw_errno, CamelliaError};

verus! {

/// The chunk base of every completed address, in ring order.
pub open spec fn completed_bases(completed: Seq<u64>, chunk_size: u32) -> Seq<usize> {
    Seq::new(
        completed.len(),
        |i: int| (completed[i] - completed[i] % (chunk_size as u64)) as usize,
    )
}

/// Moves chunks from the front of `chunks` into the fill ring.
///
/// `reserved` is the number of fill-ring slots that `xsk_ring_prod__reserve`
/// granted. The first `min(chunks.len(), reserved)` chunks leave `chunks`, in
/// order, and are returned: they are the addresses to write into the reserved
/// slots before submitting that many.
pub fn populate_fill_ring(chunks: &mut Vec<usize>, reserved: u32) -> (filled: Vec<usize>)
    ensures
        filled@.len() == if old(chunks)@.len() < reserved as int {
            old(chunks)@.len() as int
        } else {
            reserved as int
        },
        filled@ == old(chunks)@.take(filled@.len() as int),
        final(chunks)@ == old(chunks)@.skip(filled@.len() as int),
{
    let actual_filled: usize = if chunks.len() < reserved as usize {
        chunks.len()
    } else {
        reserved as usize
    };
    let mut rest = chunks.split_off(actual_filled);
    std::mem::swap(chunks, &mut rest);
    rest
}

/// Returns chunks whose transmission completed to `chunks`.
///
/// `completed` holds the addresses that `xsk_ring_cons__peek` handed out of the
/// completion ring; each is rounded down to the start of its chunk and
/// appended, in order. Returns how many were recycled.
pub fn recycle_compeletion_ring(completed: &[u64], chunk_size: u32, chunks: &mut Vec<usize>) -> (n:
    usize)
    requires
        chunk_size > 0,
    ensures
        n == completed@.len(),
        final(chunks)@ == old(chunks)@ + completed_bases(completed@, chunk_size),
{
    let mut i: usize = 0;
    while i < completed.len()
        invariant
            chunk_size > 0,
            i <= completed@.len(),
            chunks@ == old(chunks)@ + completed_bases(completed@, chunk_size).take(i as int),
        decreases completed@.len() - i,
    {
        let xdp_addr = completed[i];
        let cs = chunk_size as u64;
        assert(xdp_addr % cs <= xdp_addr) by (nonlinear_arith)
            requires
                cs > 0,
        ;
        let base_address = xdp_addr - (xdp_addr % chunk_size as u64);
        chunks.push(base_address as usize);
        i = i + 1;
        assert(completed_bases(completed@, chunk_size).take(i as int) =~= completed_bases(
            completed@,
            chunk_size,
        ).take(i - 1).push(base_address as usize));
    }
    assert(completed_bases(completed@, chunk_size).take(i as int) =~= completed_bases(
        completed@,
        chunk_size,
    ));
    i
}

/// Turns the return value of a libxdp call (`0`, or a negated error number)
/// into a result.
pub fn xsk_result(ret: i32) -> (res: Result<(), CamelliaError>)
    requires
        ret != i32::MIN,
    ensures
        ret == 0 ==> res is Ok,
        ret != 0 ==> (res matches Err(CamelliaError::SystemError(e)) && e == raw_errno(-ret as i32)),
{
    if ret == 0 {
        Ok(())
    } else {
        Err(CamelliaError::SystemError(errno_from_raw(-ret)))
    }
}

/// `EAGAIN` on Linux.
pub const EAGAIN: i32 = 11;

/// `EBUSY` on Linux.
pub const EBUSY: i32 = 16;

/// `ENETDOWN` on Linux.
pub const ENETDOWN: i32 = 100;

/// `ENOBUFS` on Linux.
pub const ENOBUFS: i32 = 105;

/// Whether a failed TX wakeup (`sendto` on the socket) is still a success: the
/// kernel is busy or out of buffers and will pick the descriptors up later.
pub fn wakeup_tx_tolerates(errno: i32) -> (r: bool)
    ensures
        r == (errno == EAGAIN || errno == EBUSY || errno == ENETDOWN || errno == ENOBUFS),
{
    errno == EAGAIN || errno == EBUSY || errno == ENETDOWN || errno == ENOBUFS
}

} // verus!
