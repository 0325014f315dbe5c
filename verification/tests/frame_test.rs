use std::sync::Arc;

use camellia::error::CamelliaError;
use camellia::umem::frame::{AppFrame, Chunk, RawBuffer, RxFrame, TxFrame};
use camellia::umem::mmap::MMapArea;

fn chunk_at(xdp_address: usize, size: usize) -> (Chunk, usize) {
    let area = MMapArea::new(16384).unwrap();
    let base = area.base_address();
    (Chunk { xdp_address, size, mmap_area: Arc::new(area) }, base)
}

#[test]
fn chunk_address_checks() {
    let (chunk, base) = chunk_at(4096, 2048);
    assert_eq!(chunk.xdp_address(), 4096);
    assert_eq!(chunk.address(), base + 4096);
    assert!(chunk.is_xdp_addr_valid(4096));
    assert!(chunk.is_xdp_addr_valid(6143));
    assert!(!chunk.is_xdp_addr_valid(6144));
    assert!(!chunk.is_xdp_addr_valid(4095));
    assert!(chunk.is_xdp_array_valid(4096, 2048));
    assert!(!chunk.is_xdp_array_valid(4097, 2048));
    assert!(chunk.is_addr_valid(base + 5000));
    assert!(!chunk.is_addr_valid(base + 6144));
    assert!(chunk.is_array_valid(base + 4096, 100));
    assert!(!chunk.is_array_valid(base + 6000, 200));
    assert_eq!(chunk.xdp_to_addr(4100), base + 4100);
}

#[test]
fn app_frame_append_and_resize() {
    let (chunk, base) = chunk_at(0, 1024);
    let mut frame = AppFrame::from_chunk(chunk, ());
    assert!(frame.is_empty());
    assert_eq!(frame.raw_buffer_append(100).unwrap(), RawBuffer { address: base, len: 100 });
    assert_eq!(frame.raw_buffer_append(24).unwrap(), RawBuffer { address: base + 100, len: 24 });
    assert_eq!(frame.len(), 124);
    match frame.raw_buffer_append(901) {
        Err(CamelliaError::InvalidArgument(msg)) => assert_eq!(
            msg,
            "request size 901 is larger than available size (total: 1024, used: 124)"
        ),
        _ => panic!("expected InvalidArgument"),
    }
    assert_eq!(frame.len(), 124);
    assert_eq!(frame.raw_buffer(), RawBuffer { address: base, len: 124 });
    assert_eq!(frame.raw_buffer_resize(1024).unwrap(), RawBuffer { address: base, len: 1024 });
    assert_eq!(frame.len(), 1024);
    match frame.raw_buffer_resize(1025) {
        Err(CamelliaError::InvalidArgument(msg)) => {
            assert_eq!(msg, "request size 1025 is larger than chunk size 1024")
        }
        _ => panic!("expected InvalidArgument"),
    }
    assert_eq!(frame.raw_buffer_mut(), RawBuffer { address: base, len: 1024 });
    assert_eq!(frame.chunk().xdp_address, 0);
    assert_eq!(*frame.umem(), ());
}

#[test]
fn received_frame_bounces_unchanged() {
    let (chunk, base) = chunk_at(8192, 4096);
    let rx = RxFrame::from_chunk(chunk, 5u8, 8192 + 256, 60);
    assert_eq!(rx.len(), 60);
    assert!(!rx.is_empty());
    assert_eq!(rx.raw_buffer(), RawBuffer { address: base + 8192 + 256, len: 60 });
    assert_eq!(*rx.umem(), 5);
    let tx: TxFrame<u8> = rx.into();
    assert_eq!(tx.xdp_address(), 8192 + 256);
    assert_eq!(tx.len(), 60);
    assert_eq!(tx.take().xdp_address, 8192);
}

#[test]
fn app_frame_sends_what_was_written() {
    let (chunk, _) = chunk_at(4096, 4096);
    let mut app = AppFrame::from_chunk(chunk, 0u8);
    app.raw_buffer_append(64).unwrap();
    let tx = TxFrame::from(app);
    assert_eq!(tx.xdp_address(), 4096);
    assert_eq!(tx.len(), 64);
    assert!(!tx.is_empty());
    assert_eq!(*tx.umem(), 0);
}

#[test]
fn tx_frame_from_chunk_is_empty() {
    let (chunk, _) = chunk_at(0, 2048);
    let tx = TxFrame::from_chunk(chunk, 1u8);
    assert!(tx.is_empty());
    assert_eq!(tx.xdp_address(), 0);
}

#[test]
fn received_frame_becomes_app_frame() {
    let (chunk, base) = chunk_at(0, 2048);
    let rx = RxFrame::from_chunk(chunk, (), 10, 20);
    let app = AppFrame::from(rx);
    assert_eq!(app.len(), 20);
    assert_eq!(app.raw_buffer(), RawBuffer { address: base + 10, len: 20 });
}

#[test]
fn taken_chunk_is_the_one_given() {
    let (chunk, _) = chunk_at(4096, 2048);
    let area = chunk.mmap_area.clone();
    let tx = TxFrame::from_chunk(chunk, 3u8);
    let back = tx.take();
    assert_eq!(back.xdp_address, 4096);
    assert_eq!(back.size, 2048);
    assert!(std::sync::Arc::ptr_eq(&back.mmap_area, &area));
}
