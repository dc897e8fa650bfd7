use serial_comm::crc::create_crc8;

#[test]
fn crc8_of_nothing_is_zero() {
    assert_eq!(create_crc8(&[]), 0);
}

#[test]
fn crc8_matches_the_maxim_check_value() {
    assert_eq!(create_crc8(b"123456789"), 0xA1);
}

#[test]
fn crc8_of_single_bytes() {
    assert_eq!(create_crc8(&[0x00]), 0x00);
    assert_eq!(create_crc8(&[0x01]), 0x5E);
    assert_eq!(create_crc8(&[0xCC]), 0x69);
    assert_eq!(create_crc8(&[0xFF]), 0x35);
}

#[test]
fn crc8_depends_on_the_order_of_bytes() {
    assert_eq!(create_crc8(&[0x01, 0x02]), 0x78);
    assert_eq!(create_crc8(&[0x02, 0x01]), 0xCF);
    assert_ne!(create_crc8(&[0x01, 0x02]), create_crc8(&[0x02, 0x01]));
}

#[test]
fn crc8_gives_the_same_value_every_time() {
    let data: Vec<u8> = (0..=255u8).collect();
    let first = create_crc8(&data);
    for _ in 0..10 {
        assert_eq!(create_crc8(&data), first);
    }
}

fn bit_serial(data: &[u8]) -> u8 {
    let mut crc: u8 = 0;
    for item in data {
        let mut inbyte: u8 = *item;
        for _ in 0..8 {
            let mix: u8 = (crc ^ inbyte) & 0x01;
            crc >>= 1;
            if mix != 0 {
                crc ^= 0x8C;
            }
            inbyte >>= 1;
        }
    }
    crc
}

#[test]
fn crc8_agrees_with_the_bit_serial_form() {
    for b in 0..=255u8 {
        assert_eq!(create_crc8(&[b]), bit_serial(&[b]));
        assert_eq!(create_crc8(&[b, 0x5A, b]), bit_serial(&[b, 0x5A, b]));
    }
}

#[test]
fn crc8_of_a_sequence_continues_from_its_prefix() {
    // A message followed by its own checksum sums to zero.
    let mut data: Vec<u8> = vec![0xD2, 0x00, 0x10, 0x20, 0x0C, 0xA0, 0x0F];
    let crc = create_crc8(&data);
    data.push(crc);
    assert_eq!(create_crc8(&data), 0);
}

#[test]
fn crc8_catches_any_single_changed_byte() {
    let base: [u8; 5] = [0x4B, 0x04, 0x03, 0x02, 0x01];
    let crc = create_crc8(&base);
    for at in 0..base.len() {
        for value in 0..=255u8 {
            if value != base[at] {
                let mut changed = base;
                changed[at] = value;
                assert_ne!(create_crc8(&changed), crc);
            }
        }
    }
}
