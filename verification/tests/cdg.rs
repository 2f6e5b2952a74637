use cdg_player::cdg::{
    cdeg_present, channels_present, tile_channel, AnyPacket, CdegInstruction, Instruction, Packet, PacketIter,
    PACKETS_PER_SECOND, PACKET_SIZE,
};

fn raw(command: u8, instruction: u8, data: &[u8]) -> Vec<u8> {
    let mut packet = vec![0u8; PACKET_SIZE];
    packet[0] = command;
    packet[1] = instruction;
    packet[4..4 + data.len()].copy_from_slice(data);
    packet
}

#[test]
fn packets_come_at_300_per_second() {
    assert_eq!(PACKET_SIZE, 24);
    assert_eq!(PACKETS_PER_SECOND, 300);
}

#[test]
fn channel_bits() {
    let mut data = [0u8; 16];
    data[0] = 0x10;
    data[1] = 0x20;
    assert_eq!(tile_channel(&data), 6);
    data[0] = 0x3F;
    data[1] = 0x3F;
    assert_eq!(tile_channel(&data), 15);
    data[0] = 0x0F;
    data[1] = 0x0F;
    assert_eq!(tile_channel(&data), 0);
}

#[test]
fn every_item1_instruction_is_known() {
    let known = [
        (1, Instruction::MemoryPreset),
        (2, Instruction::BorderPreset),
        (6, Instruction::TileBlock),
        (20, Instruction::ScrollPreset),
        (24, Instruction::ScrollCopy),
        (28, Instruction::DefineTransparent),
        (30, Instruction::LoadColorTableLow),
        (31, Instruction::LoadColorTableHigh),
        (38, Instruction::TileBlockXor),
    ];
    let mut found = 0;
    for b in 0u8..64 {
        match known.iter().find(|k| k.0 == b) {
            Some(k) => {
                assert_eq!(Instruction::from_byte(b), Some(k.1));
                assert_eq!(Instruction::from_byte(b | 0xC0), Some(k.1));
                found += 1;
            }
            None => assert_eq!(Instruction::from_byte(b), None),
        }
    }
    assert_eq!(found, 9);
}

#[test]
fn every_item2_instruction_is_known() {
    assert_eq!(CdegInstruction::from_byte(3), Some(CdegInstruction::MemoryControl));
    assert_eq!(CdegInstruction::from_byte(6), Some(CdegInstruction::SetFont));
    assert_eq!(CdegInstruction::from_byte(14), Some(CdegInstruction::XorFont));
    assert_eq!(
        CdegInstruction::from_byte(16),
        Some(CdegInstruction::LoadClut256High { start: 0 })
    );
    assert_eq!(
        CdegInstruction::from_byte(47),
        Some(CdegInstruction::LoadClut256High { start: 248 })
    );
    assert_eq!(
        CdegInstruction::from_byte(48),
        Some(CdegInstruction::LoadClut256Low { start: 0 })
    );
    assert_eq!(
        CdegInstruction::from_byte(63),
        Some(CdegInstruction::LoadClut256Low { start: 240 })
    );
    assert_eq!(CdegInstruction::from_byte(0x80 | 3), Some(CdegInstruction::MemoryControl));
    assert_eq!(CdegInstruction::from_byte(15), None);
    assert_eq!(CdegInstruction::from_byte(0), None);
}

#[test]
fn parse_strips_parity() {
    let mut packet = [0u8; PACKET_SIZE];
    packet[1] = 0xC0 | 6;
    for (i, b) in packet[4..20].iter_mut().enumerate() {
        *b = 0xC0 | i as u8;
    }
    let parsed = Packet::parse(&packet).unwrap();
    assert_eq!(parsed.instruction, Instruction::TileBlock);
    assert_eq!(parsed.data, [0, 1, 2, 3, 4, 5, 6, 7, 8, 9, 10, 11, 12, 13, 14, 15]);
    packet[1] = 5;
    assert!(Packet::parse(&packet).is_none());
}

#[test]
fn scan_numbers_the_packets() {
    let mut data = raw(0x09, 1, &[3]);
    data.extend(raw(0x00, 1, &[3]));
    data.extend(raw(0x09, 99, &[]));
    data.extend(raw(0xCA, 3, &[7]));
    data.extend([0u8; 23]);
    let list = PacketIter::new(&data).collect();
    assert_eq!(list.len(), 4);
    for (i, slot) in list.iter().enumerate() {
        assert_eq!(slot.0, i as u32);
    }
    assert!(matches!(&list[0].1, Some(AnyPacket::Item1(p)) if p.data[0] == 3));
    assert!(list[1].1.is_none());
    assert!(list[2].1.is_none());
    assert!(matches!(&list[3].1, Some(AnyPacket::Item2(p))
        if p.instruction == CdegInstruction::MemoryControl && p.data[0] == 7));
}

#[test]
fn parity_changes_nothing() {
    let mut data = raw(0x09, 6, &[1, 2, 3, 4]);
    data.extend(raw(0x0A, 16, &[5, 6]));
    let noisy: Vec<u8> = data.iter().map(|b| b | 0xC0).collect();
    let plain = PacketIter::new(&data).collect();
    let other = PacketIter::new(&noisy).collect();
    assert_eq!(plain.len(), 2);
    assert_eq!(format!("{:?}", plain), format!("{:?}", other));
}

#[test]
fn unknown_item2_instruction_ends_the_scan() {
    let mut data = raw(0x09, 1, &[1]);
    data.extend(raw(0x0A, 0, &[]));
    data.extend(raw(0x09, 1, &[2]));
    assert_eq!(PacketIter::new(&data).collect().len(), 1);
    let mut iter = PacketIter::new(&data);
    assert!(iter.next().is_some());
    assert!(iter.next().is_none());
}

#[test]
fn appended_bytes_extend_the_scan() {
    let first = raw(0x09, 1, &[1]);
    let mut both = first.clone();
    both.extend(raw(0x09, 2, &[2]));
    let short = PacketIter::new(&first).collect();
    let long = PacketIter::new(&both).collect();
    assert_eq!(short.len(), 1);
    assert_eq!(long.len(), 2);
    assert_eq!(format!("{:?}", short[0]), format!("{:?}", long[0]));
}

#[test]
fn channels_of_tiles_and_fonts() {
    let mut data = raw(0x09, 6, &[0x00, 0x10]);
    data.extend(raw(0x09, 38, &[0x10, 0x00]));
    data.extend(raw(0x0A, 6, &[0x20, 0x00]));
    data.extend(raw(0x0A, 14, &[0x30, 0x30]));
    data.extend(raw(0x09, 1, &[0x20, 0x10]));
    let present = channels_present(&data);
    for (ch, p) in present.iter().enumerate() {
        assert_eq!(*p, ch == 1 || ch == 4 || ch == 8 || ch == 15);
    }
    assert_eq!(channels_present(&[]), [false; 16]);
}

#[test]
fn channels_behind_an_unknown_packet_count() {
    let mut d = [0u8; 48];
    d[0] = 0x0A;
    d[24] = 0x09;
    d[25] = 0x06;
    let present = channels_present(&d);
    assert!(present[0]);
    assert!(present[1..].iter().all(|p| !p));
    // The rest of a packet does not count.
    assert_eq!(channels_present(&d[..47]), [false; 16]);
}

#[test]
fn cdeg_packets_of_a_disc() {
    let mut d = raw(0x0A, 0, &[]);
    assert!(!cdeg_present(&d));
    d.extend(raw(0x09, 1, &[]));
    assert!(!cdeg_present(&d));
    d.extend(raw(0x0A, 3, &[]));
    assert!(cdeg_present(&d));
    assert!(!cdeg_present(&d[..71]));
}

#[test]
fn unused_bytes_change_nothing() {
    let mut d = raw(0x09, 6, &[1, 2, 3, 4]);
    let before = format!("{:?}", PacketIter::new(&d).collect());
    for i in [2, 3, 20, 21, 22, 23] {
        d[i] = 0xFF;
    }
    assert_eq!(format!("{:?}", PacketIter::new(&d).collect()), before);
}
