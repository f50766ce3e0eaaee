use aya_ebpf::bindings::xdp_action;
use network_types::eth::EthHdr;
use network_types::eth::EtherType;
use network_types::ip::Ipv4Hdr;
use xdp_api_guard::frame::ETHERTYPE_IPV4;
use xdp_api_guard::frame::ETH_HDR_LEN;
use xdp_api_guard::frame::IPV4_HDR_LEN;
use xdp_api_guard::verdict::action_of;
use xdp_api_guard::verdict::GuardError;
use xdp_api_guard::verdict::Verdict;
use xdp_api_guard::verdict::XDP_ABORTED;
use xdp_api_guard::verdict::XDP_DROP;
use xdp_api_guard::verdict::XDP_PASS;

#[test]
fn action_codes_are_those_of_the_receive_path() {
    assert_eq!(XDP_ABORTED, xdp_action::XDP_ABORTED);
    assert_eq!(XDP_DROP, xdp_action::XDP_DROP);
    assert_eq!(XDP_PASS, xdp_action::XDP_PASS);
    assert_eq!(action_of(Ok(Verdict::Pass)), xdp_action::XDP_PASS);
    assert_eq!(action_of(Ok(Verdict::Drop)), xdp_action::XDP_DROP);
    assert_eq!(action_of(Err(GuardError::Truncated)), xdp_action::XDP_ABORTED);
    assert_eq!(action_of(Err(GuardError::TableFull)), xdp_action::XDP_ABORTED);
}

#[test]
fn header_lengths_are_the_sizes_of_the_header_types() {
    assert_eq!(ETH_HDR_LEN, EthHdr::LEN);
    assert_eq!(IPV4_HDR_LEN, Ipv4Hdr::LEN);
}

#[test]
fn ipv4_protocol_number_is_that_of_the_header_type() {
    assert_eq!(ETHERTYPE_IPV4, u16::from_be(EtherType::Ipv4 as u16));
}
