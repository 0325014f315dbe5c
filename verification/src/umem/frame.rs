use std::sync::Arc;
use vstd::prelude::*;

use crate::error::{decimal, CamelliaError};
use crate::umem::mmap::MMapArea;

verus! {

/// Calls `Arc::clone`: the new handle points at the same region.
#[verifier::external_body]
pub(crate) fn share_area(area: &Arc<MMapArea>) -> (res: Arc<MMapArea>)
    ensures
        res == *area,
{
    area.clone()
}

/// A chunk of a UMem: `size` bytes at offset `xdp_address` of the mapped region.
#[derive(Debug)]
pub struct Chunk {
    /// Offset of the chunk within the UMem (not a virtual address).
    pub xdp_address: usize,
    /// Size of the chunk in bytes.
    pub size: usize,
    /// The mapped region that backs the chunk.
    pub mmap_area: Arc<MMapArea>,
}

impl Chunk {
    /// Start of the mapped region behind the chunk.
    pub open spec fn area_base(&self) -> int {
        (*self.mmap_area).base() as int
    }

    /// The chunk's virtual address range fits in `usize`.
    pub open spec fn wf(&self) -> bool {
        self.area_base() + self.xdp_address + self.size <= usize::MAX
    }

    /// UMem offset of the chunk.
    pub fn xdp_address(&self) -> (r: usize)
        ensures
            r == self.xdp_address,
    {
        self.xdp_address
    }

    /// Virtual address of the chunk's first byte.
    pub fn address(&self) -> (r: usize)
        requires
            self.area_base() + self.xdp_address <= usize::MAX,
        ensures
            r == self.area_base() + self.xdp_address,
    {
        self.mmap_area.base_address() + self.xdp_address
    }

    /// Whether a UMem offset falls inside the chunk.
    pub fn is_xdp_addr_valid(&self, xdp_address: usize) -> (r: bool)
        requires
            self.xdp_address + self.size <= usize::MAX,
        ensures
            r == (self.xdp_address <= xdp_address < self.xdp_address + self.size),
    {
        (xdp_address >= self.xdp_address) && (xdp_address < self.xdp_address + self.size)
    }

    /// Whether `len` bytes at a UMem offset lie inside the chunk.
    pub fn is_xdp_array_valid(&self, xdp_address: usize, len: usize) -> (r: bool)
        requires
            self.xdp_address + self.size <= usize::MAX,
            xdp_address >= self.xdp_address ==> xdp_address + len <= usize::MAX,
        ensures
            r == (self.xdp_address <= xdp_address && xdp_address + len <= self.xdp_address
                + self.size),
    {
        (xdp_address >= self.xdp_address) && (xdp_address + len <= self.xdp_address + self.size)
    }

    /// Whether a virtual address falls inside the chunk.
    pub fn is_addr_valid(&self, address: usize) -> (r: bool)
        requires
            self.area_base() + self.xdp_address <= usize::MAX,
            address >= self.area_base() + self.xdp_address ==> self.wf(),
        ensures
            r == (self.area_base() + self.xdp_address <= address < self.area_base()
                + self.xdp_address + self.size),
    {
        let base_address = self.mmap_area.base_address();
        (address >= (base_address + self.xdp_address)) && (address < (base_address
            + self.xdp_address + self.size))
    }

    /// Whether `len` bytes at a virtual address lie inside the chunk.
    pub fn is_array_valid(&self, address: usize, len: usize) -> (r: bool)
        requires
            self.area_base() + self.xdp_address <= usize::MAX,
            address >= self.area_base() + self.xdp_address ==> address + len <= usize::MAX
                && self.wf(),
        ensures
            r == (self.area_base() + self.xdp_address <= address && address + len
                <= self.area_base() + self.xdp_address + self.size),
    {
        let base_address = self.mmap_area.base_address();
        (address >= (base_address + self.xdp_address)) && (address + len <= (base_address
            + self.xdp_address + self.size))
    }

    /// Virtual address of a UMem offset inside the chunk.
    pub fn xdp_to_addr(&self, xdp_address: usize) -> (r: usize)
        requires
            self.xdp_address + self.size <= usize::MAX,
            self.xdp_address <= xdp_address < self.xdp_address + self.size,
            self.area_base() + xdp_address <= usize::MAX,
        ensures
            r == self.area_base() + xdp_address,
    {
        self.mmap_area.base_address() + xdp_address
    }
}


/// A byte range in the mapped region: `len` bytes starting at virtual address
/// `address`. Callers that hold the region may view it as a byte slice.
#[derive(Debug, Clone, Copy, PartialEq, Eq)]
pub struct RawBuffer {
    pub address: usize,
    pub len: usize,
}

/// The message with which a resize beyond the chunk is refused.
pub open spec fn resize_refusal(size: usize, chunk_size: usize) -> Seq<char> {
    "request size "@ + decimal(size as nat) + " is larger than chunk size "@ + decimal(
        chunk_size as nat,
    )
}

/// The message with which an append beyond the chunk is refused.
pub open spec fn append_refusal(size: usize, chunk_size: usize, used: usize) -> Seq<char> {
    "request size "@ + decimal(size as nat) + " is larger than available size (total: "@ + decimal(
        chunk_size as nat,
    ) + ", used: "@ + decimal(used as nat) + ")"@
}

/// Formats (with `format!`, numbers in decimal) the message for a refused resize.
#[verifier::external_body]
fn resize_refusal_message(size: usize, chunk_size: usize) -> (s: String)
    ensures
        s@ == resize_refusal(size, chunk_size),
{
    format!("request size {} is larger than chunk size {}", size, chunk_size)
}

/// Formats (with `format!`, numbers in decimal) the message for a refused append.
#[verifier::external_body]
fn append_refusal_message(size: usize, chunk_size: usize, used: usize) -> (s: String)
    ensures
        s@ == append_refusal(size, chunk_size, used),
{
    format!(
        "request size {} is larger than available size (total: {}, used: {})",
        size,
        chunk_size,
        used
    )
}

/// A packet buffer: `len` bytes at `offset` within a chunk, together with the
/// handle of the UMem accessor the chunk belongs to.
pub struct Frame<M> {
    chunk: Chunk,
    umem: M,
    offset: usize,
    len: usize,
}

impl<M> Frame<M> {
    #[verifier::type_invariant]
    spec fn inv(self) -> bool {
        &&& self.chunk.wf()
        &&& self.offset <= self.chunk.size
        &&& self.len <= self.chunk.size
    }

    /// The chunk that holds the frame.
    pub closed spec fn chunk_of(&self) -> Chunk {
        self.chunk
    }

    /// The accessor handle the frame belongs to.
    pub closed spec fn umem_of(&self) -> M {
        self.umem
    }

    /// Where the frame's bytes start, relative to the chunk.
    pub closed spec fn offset_of(&self) -> usize {
        self.offset
    }

    /// How many bytes the frame holds.
    pub closed spec fn len_of(&self) -> usize {
        self.len
    }

    /// The chunk is well formed and both the offset and the length lie within it.
    pub open spec fn valid(&self) -> bool {
        &&& self.chunk_of().wf()
        &&& self.offset_of() <= self.chunk_of().size
        &&& self.len_of() <= self.chunk_of().size
    }

    /// The range of the frame's bytes.
    pub fn raw_buffer(&self) -> (r: RawBuffer)
        ensures
            r.address == self.chunk_of().area_base() + self.chunk_of().xdp_address
                + self.offset_of(),
            r.len == self.len_of(),
    {
        proof {
            use_type_invariant(self);
        }
        let base_address = self.chunk.address() + self.offset;
        RawBuffer { address: base_address, len: self.len }
    }

    /// Number of bytes in the frame; also shows that the frame is valid.
    pub fn len(&self) -> (r: usize)
        ensures
            r == self.len_of(),
            self.valid(),
    {
        proof {
            use_type_invariant(self);
        }
        self.len
    }

    /// Whether the frame holds no bytes.
    pub fn is_empty(&self) -> (r: bool)
        ensures
            r == (self.len_of() == 0),
    {
        self.len == 0
    }

    /// UMem offset of the frame's first byte.
    pub fn xdp_address(&self) -> (r: usize)
        ensures
            r == self.chunk_of().xdp_address + self.offset_of(),
    {
        proof {
            use_type_invariant(self);
        }
        self.chunk.xdp_address() + self.offset
    }

    /// The range of the frame's bytes, for writing.
    pub fn raw_buffer_mut(&mut self) -> (r: RawBuffer)
        ensures
            *final(self) == *old(self),
            r.address == old(self).chunk_of().area_base() + old(self).chunk_of().xdp_address
                + old(self).offset_of(),
            r.len == old(self).len_of(),
    {
        proof {
            use_type_invariant(&*self);
        }
        let base_address = self.chunk.address() + self.offset;
        RawBuffer { address: base_address, len: self.len }
    }

    /// Sets the frame's length to `size` and returns the first `size` bytes of
    /// the chunk; a size beyond the chunk is refused and nothing changes.
    pub fn raw_buffer_resize(&mut self, size: usize) -> (res: Result<RawBuffer, CamelliaError>)
        ensures
            final(self).valid(),
            final(self).chunk_of() == old(self).chunk_of(),
            final(self).umem_of() == old(self).umem_of(),
            final(self).offset_of() == old(self).offset_of(),
            size > old(self).chunk_of().size ==> {
                &&& final(self).len_of() == old(self).len_of()
                &&& res matches Err(CamelliaError::InvalidArgument(msg))
                &&& msg@ == resize_refusal(size, old(self).chunk_of().size)
            },
            size <= old(self).chunk_of().size ==> {
                &&& final(self).len_of() == size
                &&& res == Ok::<RawBuffer, CamelliaError>(
                    RawBuffer {
                        address: (old(self).chunk_of().area_base() + old(
                            self,
                        ).chunk_of().xdp_address) as usize,
                        len: size,
                    },
                )
            },
    {
        proof {
            use_type_invariant(&*self);
        }
        if size > self.chunk.size {
            return Err(
                CamelliaError::InvalidArgument(resize_refusal_message(size, self.chunk.size)),
            );
        }
        self.len = size;
        let base_address = self.chunk.address();
        proof {
            use_type_invariant(&*self);
        }
        Ok(RawBuffer { address: base_address, len: size })
    }

    /// Extends the frame by `size` bytes and returns the range of the new
    /// bytes, which follow the ones already there; where the chunk has no room
    /// for them the append is refused and nothing changes.
    pub fn raw_buffer_append(&mut self, size: usize) -> (res: Result<RawBuffer, CamelliaError>)
        requires
            old(self).len_of() + size <= usize::MAX,
        ensures
            final(self).valid(),
            final(self).chunk_of() == old(self).chunk_of(),
            final(self).umem_of() == old(self).umem_of(),
            final(self).offset_of() == old(self).offset_of(),
            old(self).len_of() + size > old(self).chunk_of().size ==> {
                &&& final(self).len_of() == old(self).len_of()
                &&& res matches Err(CamelliaError::InvalidArgument(msg))
                &&& msg@ == append_refusal(size, old(self).chunk_of().size, old(self).len_of())
            },
            old(self).len_of() + size <= old(self).chunk_of().size ==> {
                &&& final(self).len_of() == old(self).len_of() + size
                &&& res == Ok::<RawBuffer, CamelliaError>(
                    RawBuffer {
                        address: (old(self).chunk_of().area_base() + old(
                            self,
                        ).chunk_of().xdp_address + old(self).len_of()) as usize,
                        len: size,
                    },
                )
            },
    {
        proof {
            use_type_invariant(&*self);
        }
        if self.len + size > self.chunk.size {
            return Err(
                CamelliaError::InvalidArgument(
                    append_refusal_message(size, self.chunk.size, self.len),
                ),
            );
        }
        let base_address = self.chunk.address() + self.len;
        self.len = self.len + size;
        proof {
            use_type_invariant(&*self);
        }
        Ok(RawBuffer { address: base_address, len: size })
    }

    /// Gives up the frame and returns its chunk.
    pub fn take_chunk(self) -> (r: Chunk)
        ensures
            r == self.chunk_of(),
    {
        self.chunk
    }

    /// The accessor handle the frame belongs to.
    pub fn umem(&self) -> (r: &M)
        ensures
            *r == self.umem_of(),
    {
        &self.umem
    }
}

/// A frame received from the RX ring.
pub struct RxFrame<M>(Frame<M>);

/// A frame ready for the TX ring.
pub struct TxFrame<M>(Frame<M>);

/// A frame that the application fills.
pub struct AppFrame<M>(Frame<M>);

impl<M> AppFrame<M> {
    /// The frame inside.
    pub closed spec fn frame(&self) -> Frame<M> {
        self.0
    }

    /// The empty frame that [`AppFrame::from_chunk`] makes of `chunk`.
    pub closed spec fn empty(chunk: Chunk, umem: M) -> Self {
        AppFrame(Frame { chunk, umem, offset: 0, len: 0 })
    }

    /// An empty frame at the start of a chunk.
    pub fn from_chunk(chunk: Chunk, umem: M) -> (r: Self)
        requires
            chunk.wf(),
        ensures
            r.frame().chunk_of() == chunk,
            r.frame().umem_of() == umem,
            r.frame().offset_of() == 0,
            r.frame().len_of() == 0,
            r.frame().valid(),
            r == AppFrame::empty(chunk, umem),
    {
        AppFrame(Frame { chunk, offset: 0, len: 0, umem })
    }

    /// The range of the frame's bytes.
    pub fn raw_buffer(&self) -> (r: RawBuffer)
        ensures
            r.address == self.frame().chunk_of().area_base() + self.frame().chunk_of().xdp_address
                + self.frame().offset_of(),
            r.len == self.frame().len_of(),
    {
        self.0.raw_buffer()
    }

    /// The range of the frame's bytes, for writing.
    pub fn raw_buffer_mut(&mut self) -> (r: RawBuffer)
        ensures
            *final(self) == *old(self),
            r.address == old(self).frame().chunk_of().area_base() + old(
                self,
            ).frame().chunk_of().xdp_address + old(self).frame().offset_of(),
            r.len == old(self).frame().len_of(),
    {
        self.0.raw_buffer_mut()
    }

    /// See [`Frame::raw_buffer_resize`].
    pub fn raw_buffer_resize(&mut self, size: usize) -> (res: Result<RawBuffer, CamelliaError>)
        ensures
            final(self).frame().valid(),
            final(self).frame().chunk_of() == old(self).frame().chunk_of(),
            final(self).frame().umem_of() == old(self).frame().umem_of(),
            final(self).frame().offset_of() == old(self).frame().offset_of(),
            size > old(self).frame().chunk_of().size ==> {
                &&& final(self).frame().len_of() == old(self).frame().len_of()
                &&& res matches Err(CamelliaError::InvalidArgument(msg))
                &&& msg@ == resize_refusal(size, old(self).frame().chunk_of().size)
            },
            size <= old(self).frame().chunk_of().size ==> {
                &&& final(self).frame().len_of() == size
                &&& res == Ok::<RawBuffer, CamelliaError>(
                    RawBuffer {
                        address: (old(self).frame().chunk_of().area_base() + old(
                            self,
                        ).frame().chunk_of().xdp_address) as usize,
                        len: size,
                    },
                )
            },
    {
        self.0.raw_buffer_resize(size)
    }

    /// See [`Frame::raw_buffer_append`].
    pub fn raw_buffer_append(&mut self, size: usize) -> (res: Result<RawBuffer, CamelliaError>)
        requires
            old(self).frame().len_of() + size <= usize::MAX,
        ensures
            final(self).frame().valid(),
            final(self).frame().chunk_of() == old(self).frame().chunk_of(),
            final(self).frame().umem_of() == old(self).frame().umem_of(),
            final(self).frame().offset_of() == old(self).frame().offset_of(),
            old(self).frame().len_of() + size > old(self).frame().chunk_of().size ==> {
                &&& final(self).frame().len_of() == old(self).frame().len_of()
                &&& res matches Err(CamelliaError::InvalidArgument(msg))
                &&& msg@ == append_refusal(
                    size,
                    old(self).frame().chunk_of().size,
                    old(self).frame().len_of(),
                )
            },
            old(self).frame().len_of() + size <= old(self).frame().chunk_of().size ==> {
                &&& final(self).frame().len_of() == old(self).frame().len_of() + size
                &&& res == Ok::<RawBuffer, CamelliaError>(
                    RawBuffer {
                        address: (old(self).frame().chunk_of().area_base() + old(
                            self,
                        ).frame().chunk_of().xdp_address + old(self).frame().len_of()) as usize,
                        len: size,
                    },
                )
            },
    {
        self.0.raw_buffer_append(size)
    }

    /// Number of bytes in the frame; also shows that the frame is valid.
    pub fn len(&self) -> (r: usize)
        ensures
            r == self.frame().len_of(),
            self.frame().valid(),
    {
        self.0.len()
    }

    /// Whether the frame holds no bytes.
    pub fn is_empty(&self) -> (r: bool)
        ensures
            r == (self.frame().len_of() == 0),
    {
        self.0.is_empty()
    }

    /// The accessor handle the frame belongs to.
    pub fn umem(&self) -> (r: &M)
        ensures
            *r == self.frame().umem_of(),
    {
        self.0.umem()
    }

    /// The chunk that holds the frame.
    pub fn chunk(&self) -> (r: &Chunk)
        ensures
            *r == self.frame().chunk_of(),
    {
        &self.0.chunk
    }
}

impl<M> RxFrame<M> {
    /// The frame inside.
    pub closed spec fn frame(&self) -> Frame<M> {
        self.0
    }

    /// The frame that [`RxFrame::from_chunk`] makes of `xdp_len` bytes
    /// received at UMem offset `xdp_addr` in `chunk`.
    pub closed spec fn received(chunk: Chunk, umem: M, xdp_addr: usize, xdp_len: usize) -> Self {
        RxFrame(Frame { chunk, umem, offset: (xdp_addr - chunk.xdp_address) as usize, len: xdp_len })
    }

    /// The frame of `xdp_len` received bytes at UMem offset `xdp_addr` in `chunk`.
    pub fn from_chunk(chunk: Chunk, umem: M, xdp_addr: usize, xdp_len: usize) -> (r: Self)
        requires
            chunk.wf(),
            chunk.xdp_address <= xdp_addr,
            xdp_addr + xdp_len <= chunk.xdp_address + chunk.size,
        ensures
            r.frame().chunk_of() == chunk,
            r.frame().umem_of() == umem,
            r.frame().offset_of() == xdp_addr - chunk.xdp_address,
            r.frame().len_of() == xdp_len,
            r.frame().valid(),
            r == RxFrame::received(chunk, umem, xdp_addr, xdp_len),
    {
        let offset = xdp_addr - chunk.xdp_address();
        RxFrame(Frame { offset, chunk, umem, len: xdp_len })
    }

    /// The range of the received bytes.
    pub fn raw_buffer(&self) -> (r: RawBuffer)
        ensures
            r.address == self.frame().chunk_of().area_base() + self.frame().chunk_of().xdp_address
                + self.frame().offset_of(),
            r.len == self.frame().len_of(),
    {
        self.0.raw_buffer()
    }

    /// Number of bytes received; also shows that the frame is valid.
    pub fn len(&self) -> (r: usize)
        ensures
            r == self.frame().len_of(),
            self.frame().valid(),
    {
        self.0.len()
    }

    /// Whether the frame holds no bytes.
    pub fn is_empty(&self) -> (r: bool)
        ensures
            r == (self.frame().len_of() == 0),
    {
        self.0.is_empty()
    }

    /// The accessor handle the frame belongs to.
    pub fn umem(&self) -> (r: &M)
        ensures
            *r == self.frame().umem_of(),
    {
        self.0.umem()
    }
}

impl<M> TxFrame<M> {
    /// The frame inside.
    pub closed spec fn frame(&self) -> Frame<M> {
        self.0
    }

    /// The empty frame that [`TxFrame::from_chunk`] makes of `chunk`.
    pub closed spec fn empty(chunk: Chunk, umem: M) -> Self {
        TxFrame(Frame { chunk, umem, offset: 0, len: 0 })
    }

    /// An empty frame at the start of a chunk.
    pub fn from_chunk(chunk: Chunk, umem: M) -> (r: Self)
        requires
            chunk.wf(),
        ensures
            r.frame().chunk_of() == chunk,
            r.frame().umem_of() == umem,
            r.frame().offset_of() == 0,
            r.frame().len_of() == 0,
            r.frame().valid(),
            r == TxFrame::empty(chunk, umem),
    {
        TxFrame(Frame { chunk, umem, offset: 0, len: 0 })
    }

    /// UMem offset of the first byte to send.
    pub fn xdp_address(&self) -> (r: usize)
        ensures
            r == self.frame().chunk_of().xdp_address + self.frame().offset_of(),
    {
        self.0.xdp_address()
    }

    /// Number of bytes to send; also shows that the frame is valid.
    pub fn len(&self) -> (r: usize)
        ensures
            r == self.frame().len_of(),
            self.frame().valid(),
    {
        self.0.len()
    }

    /// Whether the frame holds no bytes.
    pub fn is_empty(&self) -> (r: bool)
        ensures
            r == (self.frame().len_of() == 0),
    {
        self.0.is_empty()
    }

    /// The accessor handle the frame belongs to.
    pub fn umem(&self) -> (r: &M)
        ensures
            *r == self.frame().umem_of(),
    {
        self.0.umem()
    }

    /// Gives up the frame and returns its chunk.
    pub fn take(self) -> (r: Chunk)
        ensures
            r == self.frame().chunk_of(),
    {
        self.0.take_chunk()
    }
}

impl<M> From<AppFrame<M>> for TxFrame<M> {
    fn from(app_frame: AppFrame<M>) -> (r: Self) {
        TxFrame(app_frame.0)
    }
}

impl<M> vstd::std_specs::convert::FromSpecImpl<AppFrame<M>> for TxFrame<M> {
    open spec fn obeys_from_spec() -> bool {
        true
    }

    closed spec fn from_spec(v: AppFrame<M>) -> Self {
        TxFrame(v.frame())
    }
}

impl<M> From<RxFrame<M>> for TxFrame<M> {
    fn from(rx_frame: RxFrame<M>) -> (r: Self) {
        TxFrame(rx_frame.0)
    }
}

impl<M> vstd::std_specs::convert::FromSpecImpl<RxFrame<M>> for TxFrame<M> {
    open spec fn obeys_from_spec() -> bool {
        true
    }

    closed spec fn from_spec(v: RxFrame<M>) -> Self {
        TxFrame(v.frame())
    }
}

impl<M> From<RxFrame<M>> for AppFrame<M> {
    fn from(rx_frame: RxFrame<M>) -> (r: Self) {
        AppFrame(rx_frame.0)
    }
}

impl<M> vstd::std_specs::convert::FromSpecImpl<RxFrame<M>> for AppFrame<M> {
    open spec fn obeys_from_spec() -> bool {
        true
    }

    closed spec fn from_spec(v: RxFrame<M>) -> Self {
        AppFrame(v.frame())
    }
}


/// Sending a received frame back sends the received bytes: the TX frame that
/// `From` makes of an RX frame is the same frame, so it starts at the received
/// UMem address and has the received length.
pub proof fn lemma_bounce_keeps_packet<M>(rx: RxFrame<M>)
    ensures
        <TxFrame<M> as vstd::std_specs::convert::FromSpec<RxFrame<M>>>::from_spec(rx).frame()
            == rx.frame(),
        <AppFrame<M> as vstd::std_specs::convert::FromSpec<RxFrame<M>>>::from_spec(rx).frame()
            == rx.frame(),
{
}

/// Sending an application frame sends the frame as it was filled.
pub proof fn lemma_send_keeps_frame<M>(app: AppFrame<M>)
    ensures
        <TxFrame<M> as vstd::std_specs::convert::FromSpec<AppFrame<M>>>::from_spec(app).frame()
            == app.frame(),
{
}

/// A TX frame made of a chunk gives that same chunk back when taken: same
/// offset, same size, same mapped region.
pub proof fn lemma_take_gives_back_chunk<M>(chunk: Chunk, umem: M)
    ensures
        TxFrame::empty(chunk, umem).frame().chunk_of() == chunk,
        TxFrame::empty(chunk, umem).frame().len_of() == 0,
{
}

/// An application frame starts on the chunk it was made of, empty; resizing,
/// appending and writing keep that chunk (see their contracts), so the frame's
/// chunk is the one it was made of for as long as the frame lives.
pub proof fn lemma_app_frame_keeps_chunk<M>(chunk: Chunk, umem: M)
    ensures
        AppFrame::empty(chunk, umem).frame().chunk_of() == chunk,
        AppFrame::empty(chunk, umem).frame().len_of() == 0,
        AppFrame::empty(chunk, umem).frame().umem_of() == umem,
{
}

/// A frame received as `xdp_len` bytes at UMem offset `xdp_addr` holds
/// `xdp_len` bytes, and sent back as a TX frame it sends from `xdp_addr`
/// exactly `xdp_len` bytes.
pub proof fn lemma_received_frame_range<M>(chunk: Chunk, umem: M, xdp_addr: usize, xdp_len: usize)
    requires
        chunk.xdp_address <= xdp_addr,
    ensures
        RxFrame::received(chunk, umem, xdp_addr, xdp_len).frame().len_of() == xdp_len,
        ({
            let tx = <TxFrame<M> as vstd::std_specs::convert::FromSpec<RxFrame<M>>>::from_spec(
                RxFrame::received(chunk, umem, xdp_addr, xdp_len),
            );
            &&& tx.frame().chunk_of() == chunk
            &&& tx.frame().chunk_of().xdp_address + tx.frame().offset_of() == xdp_addr
            &&& tx.frame().len_of() == xdp_len
        }),
{
}

} // verus!
