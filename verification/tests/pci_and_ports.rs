use drivers::message::Message;
use drivers::pci::{
    config_address, find_device, pci_read_config_16, pci_read_config_32, pci_read_config_32_any,
    pci_read_config_8, pci_write_config_16, scan, serial_debug, serial_debug_hex,
    serial_debug_hex_64, ConfigSpace, PciDevice, Slot,
};
use drivers::serial::{RegisterWrite, Serial};
use drivers::usb_hcd;

fn space() -> ConfigSpace {
    let mut words = [0u32; 64];
    words[0] = 0x1059_1AF4;
    words[1] = 0x0010_0006;
    words[13] = 0x0000_0040;
    words[16] = 0x8765_5009;
    words[20] = 0x0000_0011;
    ConfigSpace { words }
}

fn device() -> PciDevice {
    PciDevice {
        bus: 0,
        dev: 4,
        func: 0,
        vendor_id: 0x1AF4,
        device_id: 0x1059,
        class: 4,
        subclass: 1,
        bars: [0; 6],
    }
}

#[test]
fn addresses_of_configuration_words() {
    assert_eq!(config_address(0, 0, 0, 0), 0x8000_0000);
    assert_eq!(config_address(1, 2, 3, 0x17), 0x8001_1314);
    assert_eq!(config_address(255, 31, 7, 255), 0x80FF_FFFC);
}

#[test]
fn fields_of_configuration_space() {
    let s = space();
    assert_eq!(pci_read_config_8(&s, 0), 0xF4);
    assert_eq!(pci_read_config_8(&s, 3), 0x10);
    assert_eq!(pci_read_config_16(&s, 2), 0x1059);
    assert_eq!(pci_read_config_16(&s, 3), 0x10);
    assert_eq!(pci_read_config_32(&s, 2), 0x1059_1AF4);
    assert_eq!(pci_read_config_32_any(&s, 2), 0x0006_1059);
}

#[test]
fn written_fields_read_back() {
    for k in 0..3u8 {
        let mut s = space();
        s.words[1] = pci_write_config_16(s.words[1], 4 + k, 0xBEEF);
        assert_eq!(pci_read_config_16(&s, 4 + k), 0xBEEF);
    }
    assert_eq!(pci_write_config_16(0x1122_3344, 4, 0xAABB), 0x1122_AABB);
    assert_eq!(pci_write_config_16(0x1122_3344, 6, 0xAABB), 0xAABB_3344);
    assert_eq!(pci_write_config_16(0x1122_3344, 7, 0xAABB), 0xBB22_3344);
}

#[test]
fn capabilities_are_found() {
    assert_eq!(device().find_capability(&space(), 0x09), Some(0x40));
    assert_eq!(device().find_capability(&space(), 0x11), Some(0x50));
    assert_eq!(device().find_capability(&space(), 0x05), None);
    let mut without = space();
    without.words[1] = 0x0000_0006;
    assert_eq!(device().find_capability(&without, 0x09), None);
}

#[test]
fn a_circle_of_capabilities_ends() {
    let mut s = space();
    s.words[20] = 0x0000_4011;
    assert_eq!(device().find_capability(&s, 0x05), None);
}

#[test]
fn devices_on_the_bus() {
    let slot = |dev: u8, id: u32| Slot {
        bus: 0,
        dev,
        id,
        class_rev: 0x0401_0001,
        bars: [dev as u32; 6],
    };
    let slots = vec![slot(0, 0xFFFF_FFFF), slot(1, 0x1050_1AF4), slot(2, 0x1059_1AF4)];
    let found = scan(&slots);
    assert_eq!(found.len(), 2);
    assert_eq!((found[0].dev, found[0].device_id), (1, 0x1050));
    assert_eq!((found[1].class, found[1].subclass), (4, 1));
    assert_eq!(find_device(&found, 0x1AF4, 0x1059).unwrap().bars, [2; 6]);
    assert!(find_device(&found, 0x1AF4, 0x1041).is_none());
}

#[test]
fn debug_numbers() {
    assert_eq!(serial_debug("ok\n"), b"ok\n");
    assert_eq!(serial_debug_hex(0xC0FFEE), "0x00C0FFEE");
    assert_eq!(serial_debug_hex_64(0x1F), "0x000000000000001F");
}

#[test]
fn serial_port() {
    let s = Serial::new();
    assert_eq!(s.base, 0x3F8);
    assert_eq!(s.write_str("hi"), b"hi");
    let w = s.probe();
    assert_eq!(w.len(), 6);
    assert_eq!(w[1], RegisterWrite { offset: 3, value: 0x80 });
    assert_eq!(w[5], RegisterWrite { offset: 2, value: 0xC7 });
}

#[test]
fn serial_messages() {
    let s = Serial::new();
    let mut m = Message::empty();
    m.tag = 1;
    m.data[0] = 3;
    m.data[1..4].copy_from_slice(b"abc");
    let (out, reply) = s.handle(&m);
    assert_eq!(out, b"abc");
    assert_eq!(reply.tag, 0);
    m.data[0] = 200;
    assert_eq!(s.handle(&m).0.len(), 55);
    m.tag = 2;
    assert!(s.handle(&m).0.is_empty());
}

#[test]
fn usb_registry_is_empty() {
    usb_hcd::init();
    assert_eq!(usb_hcd::device_count(), 0);
    assert_eq!(usb_hcd::device_info(0), None);
}
