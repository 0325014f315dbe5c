use camellia::error::CamelliaError;
use camellia::umem::base::{
    locked_after_build, locked_after_release, memlock_raise, UMemBuilder,
    XSK_UMEM__DEFAULT_FRAME_SIZE,
};
use camellia::umem::mmap::MMapArea;

#[test]
fn test_mmap() {
    let mmap_area = MMapArea::new(4096).unwrap();
    assert_ne!(mmap_area.base_address(), 0);
}

#[test]
fn test_umem_create() {
    let umem = UMemBuilder::new().num_chunks(1024).build().unwrap();
    assert_eq!(umem.chunks.len(), 1024);
}

#[test]
fn test_frame_allocate() {
    let mut umem = UMemBuilder::new().num_chunks(1024).build().unwrap();

    let frames = umem.allocate(1024).unwrap();
    assert_eq!(frames.len(), 1024);
    assert_eq!(umem.chunks.len(), 0);
}

#[test]
fn mmap_of_zero_bytes_is_refused() {
    assert!(matches!(MMapArea::new(0), Err(CamelliaError::InvalidArgument(_))));
}

#[test]
fn umem_without_chunk_count_is_refused() {
    match UMemBuilder::new().build() {
        Err(CamelliaError::InvalidArgument(msg)) => {
            assert_eq!(msg, "number of chunks must be specified")
        }
        _ => panic!("expected InvalidArgument"),
    }
}

#[test]
fn umem_chunks_are_laid_out_in_order() {
    let umem = UMemBuilder::new().chunk_size(2048).num_chunks(4).build().unwrap();
    assert_eq!(umem.chunks, vec![0, 2048, 4096, 6144]);
    assert_eq!(umem.chunk_size, 2048);
    assert_eq!(umem.num_chunks, 4);
    assert_eq!(umem.config.frame_size, 2048);
    assert_eq!(umem.config.fill_size, 2048);
}

#[test]
fn umem_default_chunk_size_is_libxdp_frame_size() {
    let umem = UMemBuilder::new().num_chunks(2).build().unwrap();
    assert_eq!(umem.chunks, vec![0, XSK_UMEM__DEFAULT_FRAME_SIZE as usize]);
}

#[test]
fn allocate_takes_from_the_front_and_free_appends() {
    let mut umem = UMemBuilder::new().chunk_size(4096).num_chunks(4).build().unwrap();
    let base = umem.area.base_address();
    let chunks = umem.allocate(2).unwrap();
    assert_eq!(chunks[0].xdp_address, 0);
    assert_eq!(chunks[1].xdp_address, 4096);
    assert_eq!(chunks[1].size, 4096);
    assert_eq!(chunks[1].address(), base + 4096);
    assert_eq!(umem.chunks, vec![8192, 12288]);
    umem.free(chunks);
    assert_eq!(umem.chunks, vec![8192, 12288, 0, 4096]);
}

#[test]
fn allocate_beyond_pool_is_refused_and_keeps_pool() {
    let mut umem = UMemBuilder::new().num_chunks(2).build().unwrap();
    match umem.allocate(3) {
        Err(CamelliaError::InvalidArgument(msg)) => assert_eq!(
            msg,
            "SharedUMem::allocate: 3 chunks requested, but only 2 chunks available"
        ),
        _ => panic!("expected InvalidArgument"),
    }
    assert_eq!(umem.chunks.len(), 2);
    assert!(matches!(umem.allocate_raw(3), Err(CamelliaError::InvalidArgument(_))));
    assert_eq!(umem.chunks.len(), 2);
}

#[test]
fn raw_allocation_round_trip() {
    let mut umem = UMemBuilder::new().chunk_size(2048).num_chunks(3).build().unwrap();
    let raw = umem.allocate_raw(2).unwrap();
    assert_eq!(raw, vec![0, 2048]);
    assert_eq!(umem.chunks, vec![4096]);
    umem.free_raw(raw);
    assert_eq!(umem.chunks, vec![4096, 0, 2048]);
}

#[test]
fn builder_settings_are_kept() {
    let builder = UMemBuilder::new()
        .chunk_size(2048)
        .num_chunks(8)
        .frame_headroom(256)
        .fill_queue_size(1024)
        .completion_queue_size(512);
    let settings = builder.settings();
    assert_eq!(settings.chunk_size, 2048);
    assert_eq!(settings.num_chunks, Some(8));
    let umem = builder.build().unwrap();
    assert_eq!(umem.config.frame_headroom, 256);
    assert_eq!(umem.config.fill_size, 1024);
    assert_eq!(umem.config.comp_size, 512);
    assert_eq!(umem.config.flags, 0);
}

#[test]
fn empty_umem_is_refused() {
    assert!(matches!(
        UMemBuilder::new().num_chunks(0).build(),
        Err(CamelliaError::InvalidArgument(_))
    ));
}

#[test]
fn memlock_is_raised_only_when_too_low() {
    assert_eq!(memlock_raise(1 << 20, 1 << 30, 1 << 21), Some(1 << 21));
    assert_eq!(memlock_raise(1 << 30, 1 << 20, 1 << 21), Some(1 << 21));
    assert_eq!(memlock_raise(1 << 22, 1 << 23, 1 << 21), None);
    assert_eq!(memlock_raise(100, 100, 100), None);
}

#[test]
fn mmap_reports_the_length_asked_for() {
    let area = MMapArea::new(3 * 4096 + 5).unwrap();
    assert_eq!(area.len(), 3 * 4096 + 5);
    assert!(area.base_address() > 0);
    let umem = UMemBuilder::new().chunk_size(2048).num_chunks(8).build().unwrap();
    assert_eq!(umem.area.len(), 2048 * 8);
}

#[test]
fn locked_memory_grows_and_shrinks_by_the_umem_size() {
    assert_eq!(locked_after_build(0, 4096, 16), 65536);
    assert_eq!(locked_after_build(100, 2048, 3), 100 + 6144);
    assert_eq!(locked_after_release(65536 + 7, 4096, 16), 7);
    let built = locked_after_build(12345, 4096, 4096);
    assert_eq!(locked_after_release(built, 4096, 4096), 12345);
}
