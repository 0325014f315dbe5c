use camellia::error::CamelliaError;
use camellia::umem::base::{DedicatedAccessor, UMemBuilder};
use camellia::umem::shared::SharedAccessor;

#[test]
fn dedicated_fill_takes_what_the_ring_reserved() {
    let umem = UMemBuilder::new().chunk_size(4096).num_chunks(4).build().unwrap();
    let mut accessor = DedicatedAccessor::new(umem).unwrap();
    assert_eq!(accessor.fill(3), vec![0, 4096, 8192]);
    assert_eq!(accessor.umem().chunks, vec![12288]);
    assert_eq!(accessor.fill(5), vec![12288]);
    assert!(accessor.umem().chunks.is_empty());
}

#[test]
fn dedicated_allocate_reports_exhaustion() {
    let umem = UMemBuilder::new().num_chunks(2).build().unwrap();
    let mut accessor = DedicatedAccessor::new(umem).unwrap();
    match accessor.allocate(3) {
        Err(CamelliaError::ResourceExhausted(msg)) => {
            assert_eq!(msg, "request 3 frames, but only 2 frames are available")
        }
        _ => panic!("expected ResourceExhausted"),
    }
    let chunks = accessor.allocate(2).unwrap();
    assert_eq!(chunks.len(), 2);
}

#[test]
fn dedicated_send_and_recycle() {
    let umem = UMemBuilder::new().chunk_size(4096).num_chunks(2).build().unwrap();
    let mut accessor = DedicatedAccessor::new(umem).unwrap();
    let mut chunks = accessor.allocate(2).unwrap();
    let second = chunks.pop().unwrap();
    let first = chunks.pop().unwrap();
    accessor.register_send(first);
    accessor.register_send(second);
    assert_eq!(accessor.tx_issued_num(), 2);
    assert_eq!(accessor.recycle(&[4096, 0]), 2);
    assert_eq!(accessor.umem().chunks, vec![4096, 0]);
}

#[test]
fn dedicated_extract_recv_finds_the_chunk() {
    let umem = UMemBuilder::new().chunk_size(2048).num_chunks(4).build().unwrap();
    let mut accessor = DedicatedAccessor::new(umem).unwrap();
    let chunk = accessor.extract_recv(2048 * 2 + 256);
    assert_eq!(chunk.xdp_address, 4096);
    assert_eq!(chunk.size, 2048);
    assert_eq!(chunk.address(), accessor.umem().area.base_address() + 4096);
    assert!(chunk.is_xdp_addr_valid(4096 + 256));
}

#[test]
fn dedicated_free_appends() {
    let umem = UMemBuilder::new().chunk_size(4096).num_chunks(2).build().unwrap();
    let mut accessor = DedicatedAccessor::new(umem).unwrap();
    let mut chunks = accessor.allocate(1).unwrap();
    accessor.free(chunks.pop().unwrap());
    assert_eq!(accessor.umem().chunks, vec![4096, 0]);
}

#[test]
fn shared_pre_alloc_takes_half_a_cache_extra() {
    let mut umem = UMemBuilder::new().chunk_size(2048).num_chunks(256).build().unwrap();
    let mut accessor = SharedAccessor::new(&umem, 7).unwrap();
    assert_eq!(accessor.umem_id(), 7);
    accessor.pre_alloc(&mut umem, 10).unwrap();
    assert_eq!(umem.chunks.len(), 256 - 74);
    accessor.pre_alloc(&mut umem, 10).unwrap();
    assert_eq!(umem.chunks.len(), 256 - 74);
}

#[test]
fn shared_pre_alloc_fails_when_pool_is_short() {
    let mut umem = UMemBuilder::new().num_chunks(16).build().unwrap();
    let mut accessor = SharedAccessor::new(&umem, 1).unwrap();
    match accessor.pre_alloc(&mut umem, 1) {
        Err(CamelliaError::InvalidArgument(msg)) => assert_eq!(
            msg,
            "SharedUMem::allocate: 65 chunks requested, but only 16 chunks available"
        ),
        _ => panic!("expected InvalidArgument"),
    }
    assert_eq!(umem.chunks.len(), 16);
}

#[test]
fn shared_allocate_and_free_trim_the_cache() {
    let mut umem = UMemBuilder::new().chunk_size(2048).num_chunks(256).build().unwrap();
    let mut accessor = SharedAccessor::new(&umem, 1).unwrap();
    let chunks = accessor.allocate(&mut umem, 65).unwrap();
    assert_eq!(chunks.len(), 65);
    assert_eq!(chunks[0].xdp_address, 0);
    assert_eq!(chunks[64].xdp_address, 64 * 2048);
    assert_eq!(umem.chunks.len(), 256 - 129);
    for chunk in chunks {
        accessor.free(&mut umem, chunk);
    }
    // 64 cached + 65 freed = 129 > 128: the first 64 went back to the pool.
    assert_eq!(umem.chunks.len(), 256 - 129 + 64);
}

#[test]
fn shared_fill_and_recycle() {
    let mut umem = UMemBuilder::new().chunk_size(2048).num_chunks(256).build().unwrap();
    let mut accessor = SharedAccessor::new(&umem, 1).unwrap();
    accessor.pre_alloc(&mut umem, 4).unwrap();
    let filled = accessor.fill(&mut umem, 4);
    assert_eq!(filled, vec![0, 2048, 4096, 6144]);
    let mut chunks = accessor.allocate(&mut umem, 2).unwrap();
    accessor.register_send(chunks.pop().unwrap());
    accessor.register_send(chunks.pop().unwrap());
    assert_eq!(accessor.tx_issued_num(), 2);
    assert_eq!(accessor.recycle(&mut umem, &[8192 + 256, 10240 + 100]), 2);
    assert_eq!(accessor.tx_issued_num(), 0);
    let chunk = accessor.extract_recv(&umem, 2048 * 3 + 300);
    assert_eq!(chunk.xdp_address, 6144);
}
