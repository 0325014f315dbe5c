# camellia

AF_XDP sockets over a UMem, with the bookkeeping verified by Verus.

- `src/` is the verified library: the UMem's memory and chunk pool
  (`umem::mmap`, `umem::base`), the per-socket accessors that move chunks
  between the pool and the fill and completion rings (`umem::base`,
  `umem::shared`, `umem::libxdp`), frames and their byte ranges
  (`umem::frame`), socket configuration, scheduling decisions and traffic
  counters (`socket::af_xdp`), and MAC addresses and RPS bitmaps (`veth`).
- `app/` holds what talks to the kernel: the libxdp rings, UMems and sockets
  behind raw pointers, the wakeup system calls, the veth and network
  namespace setup, and byte slices over the ranges of frames (`app/frame.rs`).
  The library decides the chunk bookkeeping, the locked-memory total, the
  wakeups and counters, what happens to each frame of a TX batch, the socket
  settings and the RPS bitmap; app/ performs what it decides.
- `tests/` exercises the library.
