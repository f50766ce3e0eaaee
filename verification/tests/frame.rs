use xdp_api_guard::frame::ether_type;
use xdp_api_guard::frame::ipv4_source;
use xdp_api_guard::frame::ptr_at;
use xdp_api_guard::frame::source_address;
use xdp_api_guard::frame::ETHERTYPE_IPV4;
use xdp_api_guard::frame::ETH_HDR_LEN;
use xdp_api_guard::frame::IPV4_HDR_LEN;
use xdp_api_guard::verdict::GuardError;

fn frame_with(len: usize, protocol: u16, source: [u8; 4]) -> Vec<u8> {
    let mut frame = vec![0xAAu8; len];
    if len >= 14 {
        frame[12] = (protocol >> 8) as u8;
        frame[13] = (protocol & 0xFF) as u8;
    }
    for (i, byte) in source.iter().enumerate() {
        if 26 + i < len {
            frame[26 + i] = *byte;
        }
    }
    frame
}

#[test]
fn header_lengths_are_those_of_the_wire() {
    assert_eq!(ETH_HDR_LEN, 14);
    assert_eq!(IPV4_HDR_LEN, 20);
    assert_eq!(ETHERTYPE_IPV4, 0x0800);
}

#[test]
fn ptr_at_gives_the_bytes_in_bounds() {
    let frame: Vec<u8> = (0u8..20).collect();
    assert_eq!(ptr_at(&frame, 0, 20), Ok(&frame[..]));
    assert_eq!(ptr_at(&frame, 3, 4), Ok(&[3u8, 4, 5, 6][..]));
    assert_eq!(ptr_at(&frame, 19, 1), Ok(&[19u8][..]));
    assert_eq!(ptr_at(&frame, 20, 0), Ok(&[][..]));
    assert_eq!(ptr_at(&frame, 0, 0), Ok(&[][..]));
}

#[test]
fn ptr_at_refuses_what_ends_past_the_frame() {
    let frame: Vec<u8> = (0u8..20).collect();
    assert_eq!(ptr_at(&frame, 0, 21), Err(GuardError::Truncated));
    assert_eq!(ptr_at(&frame, 19, 2), Err(GuardError::Truncated));
    assert_eq!(ptr_at(&frame, 20, 1), Err(GuardError::Truncated));
    assert_eq!(ptr_at(&frame, 21, 0), Err(GuardError::Truncated));
    assert_eq!(ptr_at(&[], 0, 1), Err(GuardError::Truncated));
}

#[test]
fn ptr_at_refuses_a_sum_that_does_not_fit() {
    let frame = [0u8; 8];
    assert_eq!(ptr_at(&frame, usize::MAX, 1), Err(GuardError::Truncated));
    assert_eq!(ptr_at(&frame, 1, usize::MAX), Err(GuardError::Truncated));
    assert_eq!(ptr_at(&frame, usize::MAX, usize::MAX), Err(GuardError::Truncated));
}

#[test]
fn ether_type_needs_fourteen_bytes() {
    for len in 0..14 {
        let frame = frame_with(len, 0x0800, [1, 2, 3, 4]);
        assert_eq!(ether_type(&frame), Err(GuardError::Truncated), "length {len}");
    }
    assert_eq!(ether_type(&frame_with(14, 0x0800, [0; 4])), Ok(0x0800));
}

#[test]
fn ether_type_is_big_endian() {
    assert_eq!(ether_type(&frame_with(14, 0x0800, [0; 4])), Ok(0x0800));
    assert_eq!(ether_type(&frame_with(14, 0x0008, [0; 4])), Ok(0x0008));
    assert_eq!(ether_type(&frame_with(60, 0x86DD, [0; 4])), Ok(0x86DD));
    assert_eq!(ether_type(&frame_with(60, 0x0806, [0; 4])), Ok(0x0806));
    assert_eq!(ether_type(&frame_with(14, 0xFFFF, [0; 4])), Ok(0xFFFF));
    assert_eq!(ether_type(&frame_with(14, 0x0000, [0; 4])), Ok(0x0000));
    assert_eq!(ether_type(&frame_with(14, 0x1234, [0; 4])), Ok(0x1234));
}

#[test]
fn ipv4_source_needs_the_whole_header() {
    for len in 0..34 {
        let frame = frame_with(len, 0x0800, [1, 2, 3, 4]);
        assert_eq!(ipv4_source(&frame), Err(GuardError::Truncated), "length {len}");
    }
    assert_eq!(ipv4_source(&frame_with(34, 0x0800, [1, 2, 3, 4])), Ok(0x0102_0304));
}

#[test]
fn ipv4_source_is_big_endian() {
    assert_eq!(ipv4_source(&frame_with(34, 0x0800, [8, 8, 8, 8])), Ok(0x0808_0808));
    assert_eq!(ipv4_source(&frame_with(34, 0x0800, [1, 2, 3, 4])), Ok(0x0102_0304));
    assert_eq!(ipv4_source(&frame_with(64, 0x0800, [192, 168, 0, 1])), Ok(0xC0A8_0001));
    assert_eq!(ipv4_source(&frame_with(64, 0x0800, [255, 255, 255, 255])), Ok(u32::MAX));
    assert_eq!(ipv4_source(&frame_with(64, 0x0800, [0, 0, 0, 0])), Ok(0));
    assert_eq!(ipv4_source(&frame_with(64, 0x0800, [0, 0, 0, 1])), Ok(1));
    assert_eq!(ipv4_source(&frame_with(64, 0x0800, [1, 0, 0, 0])), Ok(0x0100_0000));
}

#[test]
fn ipv4_source_reads_bytes_26_to_29_only() {
    let mut frame = vec![0u8; 40];
    frame[25] = 0xEE;
    frame[26] = 10;
    frame[27] = 20;
    frame[28] = 30;
    frame[29] = 40;
    frame[30] = 0xEE;
    assert_eq!(ipv4_source(&frame), Ok(0x0A14_1E28));
}

#[test]
fn source_address_of_a_short_frame_is_truncated() {
    for len in 0..14 {
        let frame = frame_with(len, 0x0800, [1, 2, 3, 4]);
        assert_eq!(source_address(&frame), Err(GuardError::Truncated), "length {len}");
    }
}

#[test]
fn source_address_of_another_protocol_is_none() {
    assert_eq!(source_address(&frame_with(14, 0x0806, [0; 4])), Ok(None));
    assert_eq!(source_address(&frame_with(14, 0x86DD, [0; 4])), Ok(None));
    assert_eq!(source_address(&frame_with(60, 0x86DD, [1, 2, 3, 4])), Ok(None));
    assert_eq!(source_address(&frame_with(60, 0x0008, [1, 2, 3, 4])), Ok(None));
    assert_eq!(source_address(&frame_with(60, 0x0801, [1, 2, 3, 4])), Ok(None));
    assert_eq!(source_address(&frame_with(60, 0x0700, [1, 2, 3, 4])), Ok(None));
}

#[test]
fn source_address_of_a_cut_ipv4_header_is_truncated() {
    for len in 14..34 {
        let frame = frame_with(len, 0x0800, [1, 2, 3, 4]);
        assert_eq!(source_address(&frame), Err(GuardError::Truncated), "length {len}");
    }
}

#[test]
fn source_address_of_an_ipv4_frame() {
    assert_eq!(source_address(&frame_with(34, 0x0800, [1, 2, 3, 4])), Ok(Some(0x0102_0304)));
    assert_eq!(source_address(&frame_with(1500, 0x0800, [8, 8, 8, 8])), Ok(Some(0x0808_0808)));
}
