use rustx86_core::bus::pci::host_bridge::host_bridge;
use rustx86_core::bus::pci::reg;

/// An operating system looks at slot 0 to see whether there is a PCI bus at all.
#[test]
fn identity_is_intel_440fx() {
    let f = host_bridge();
    assert_eq!(
        u16::from_le_bytes([f.cfg[reg::VENDOR_ID], f.cfg[reg::VENDOR_ID + 1]]),
        0x8086,
        "Intel"
    );
    assert_eq!(
        u16::from_le_bytes([f.cfg[reg::DEVICE_ID], f.cfg[reg::DEVICE_ID + 1]]),
        0x1237,
        "440FX"
    );
    assert_eq!(f.cfg[reg::CLASS_CODE + 2], 0x06, "class: bridge");
    assert_eq!(f.cfg[reg::CLASS_CODE + 1], 0x00, "subclass: host");
}

#[test]
fn other_bytes_of_the_host_bridge_are_zero() {
    let f = host_bridge();
    assert_eq!(f.cfg.len(), 256);
    for i in 0..256usize {
        if ![0usize, 1, 2, 3, 11].contains(&i) {
            assert_eq!(f.cfg[i], 0, "byte {i}");
        }
    }
}
