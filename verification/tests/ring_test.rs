use camellia::error::CamelliaError;
use camellia::umem::libxdp::{populate_fill_ring, recycle_compeletion_ring, wakeup_tx_tolerates, xsk_result};
use nix::errno::Errno;

#[test]
fn fill_ring_takes_the_front() {
    let mut chunks = vec![0, 4096, 8192];
    assert_eq!(populate_fill_ring(&mut chunks, 2), vec![0, 4096]);
    assert_eq!(chunks, vec![8192]);
    assert_eq!(populate_fill_ring(&mut chunks, 5), vec![8192]);
    assert!(chunks.is_empty());
    assert!(populate_fill_ring(&mut chunks, 5).is_empty());
}

#[test]
fn completion_ring_rounds_down_to_chunks() {
    let mut chunks = vec![0];
    assert_eq!(recycle_compeletion_ring(&[4096 + 256, 8192, 12288 + 4095], 4096, &mut chunks), 3);
    assert_eq!(chunks, vec![0, 4096, 8192, 12288]);
}

#[test]
fn xsk_result_maps_errno() {
    assert!(xsk_result(0).is_ok());
    assert!(matches!(xsk_result(-22), Err(CamelliaError::SystemError(Errno::EINVAL))));
    assert!(matches!(xsk_result(-16), Err(CamelliaError::SystemError(Errno::EBUSY))));
}

#[test]
fn tx_wakeup_tolerated_errors() {
    assert!(wakeup_tx_tolerates(Errno::EAGAIN as i32));
    assert!(wakeup_tx_tolerates(Errno::EBUSY as i32));
    assert!(wakeup_tx_tolerates(Errno::ENETDOWN as i32));
    assert!(wakeup_tx_tolerates(Errno::ENOBUFS as i32));
    assert!(!wakeup_tx_tolerates(Errno::EINVAL as i32));
    assert!(!wakeup_tx_tolerates(0));
}
