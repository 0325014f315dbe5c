use camellia::veth::{is_rx_queue, rps_cpu_mask, MacAddr};

#[test]
fn rps_mask_sets_one_bit_per_core() {
    assert_eq!(rps_cpu_mask(&[]), 0);
    assert_eq!(rps_cpu_mask(&[0]), 1);
    assert_eq!(rps_cpu_mask(&[1, 3]), 0b1010);
    assert_eq!(rps_cpu_mask(&[2, 2, 5]), 0b100100);
    assert_eq!(rps_cpu_mask(&[63, 0]), 0x8000_0000_0000_0001);
    assert_eq!(format!("{:x}", rps_cpu_mask(&[0, 1, 2, 3])), "f");
}

#[test]
fn rx_queue_names() {
    assert!(is_rx_queue("rx-0"));
    assert!(is_rx_queue("rx-15"));
    assert!(is_rx_queue("rx-"));
    assert!(!is_rx_queue("tx-0"));
    assert!(!is_rx_queue("rx"));
    assert!(!is_rx_queue(""));
    assert!(!is_rx_queue("Rx-0"));
    assert!(!is_rx_queue("rxx-0"));
}

#[test]
fn mac_from_bytes_equals_new() {
    let bytes = [0x02, 0x00, 0x00, 0xab, 0xcd, 0xef];
    let from: MacAddr = MacAddr::from(bytes);
    assert_eq!(from, MacAddr::new(bytes));
    assert_eq!(from.bytes(), bytes);
    assert_ne!(MacAddr::new(bytes), MacAddr::new([0x02, 0x00, 0x00, 0xab, 0xcd, 0xee]));
}
