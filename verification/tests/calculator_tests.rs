use subnet_calculator::subnet_calculator;
use subnet_calculator::CidrError;
use subnet_calculator::CidrInput;
use subnet_calculator::SubnetReport;

fn report(s: &str) -> SubnetReport {
    subnet_calculator(s).expect("expected a valid CIDR input")
}

fn error(s: &str) -> CidrError {
    subnet_calculator(s).expect_err("expected an invalid CIDR input")
}

#[test]
fn scenario_slash_24() {
    let r = report("192.168.1.0/24");
    assert_eq!(r.ip, 0xC0A8_0100);
    assert_eq!(r.mask, 0xFFFF_FF00);
    assert_eq!(r.network, 0xC0A8_0100);
    assert_eq!(r.broadcast, 0xC0A8_01FF);
    assert_eq!(r.usable_hosts, 254);
    assert_eq!(r.first_usable, 0xC0A8_0101);
    assert_eq!(r.last_usable, 0xC0A8_01FE);
}

#[test]
fn scenario_slash_24_rendered() {
    let r = report("192.168.1.0/24");
    assert_eq!(
        r.render(),
        "IP Address: 192.168.1.0\n\
         Subnet Mask: 255.255.255.0\n\
         Network Address: 192.168.1.0\n\
         Broadcast Address: 192.168.1.255\n\
         Number of Usable Hosts: 254\n\
         First Usable IP: 192.168.1.1\n\
         Last Usable IP: 192.168.1.254\n"
    );
}

#[test]
fn scenario_slash_8() {
    let r = report("10.0.0.5/8");
    assert_eq!(r.ip, 0x0A00_0005);
    assert_eq!(r.network, 0x0A00_0000);
    assert_eq!(r.broadcast, 0x0AFF_FFFF);
    assert_eq!(r.usable_hosts, 16_777_214);
    assert_eq!(r.first_usable, 0x0A00_0001);
    assert_eq!(r.last_usable, 0x0AFF_FFFE);
}

#[test]
fn scenario_slash_32_single_address() {
    let r = report("172.16.5.9/32");
    assert_eq!(r.ip, 0xAC10_0509);
    assert_eq!(r.mask, 0xFFFF_FFFF);
    assert_eq!(r.network, 0xAC10_0509);
    assert_eq!(r.broadcast, 0xAC10_0509);
    assert_eq!(r.usable_hosts, 1);
    assert_eq!(r.first_usable, 0xAC10_0509);
    assert_eq!(r.last_usable, 0xAC10_0509);
}

#[test]
fn scenario_prefix_out_of_range() {
    let e = error("192.168.1.1/33");
    assert_eq!(e, CidrError::PrefixOutOfRange);
    assert_eq!(e.message(), "Prefix length must be between 0 and 32");
}

#[test]
fn scenario_invalid_address() {
    let e = error("not-an-ip/24");
    assert_eq!(e, CidrError::InvalidAddress);
    assert_eq!(e.message(), "Invalid IP address");
}

#[test]
fn scenario_no_slash() {
    let e = error("192.168.1.1");
    assert_eq!(e, CidrError::MalformedCidr);
    assert_eq!(e.message(), "Invalid CIDR notation");
}

#[test]
fn boundary_prefix_zero() {
    let r = report("0.0.0.0/0");
    assert_eq!(r.mask, 0);
    assert_eq!(r.network, 0x0000_0000);
    assert_eq!(r.broadcast, 0xFFFF_FFFF);
    assert_eq!(r.usable_hosts, 4_294_967_294);
    assert_eq!(r.first_usable, 0x0000_0001);
    assert_eq!(r.last_usable, 0xFFFF_FFFE);
}

#[test]
fn boundary_prefix_zero_nonzero_address() {
    let r = report("203.0.113.7/0");
    assert_eq!(r.ip, 0xCB00_7107);
    assert_eq!(r.network, 0x0000_0000);
    assert_eq!(r.broadcast, 0xFFFF_FFFF);
    assert_eq!(r.usable_hosts, 4_294_967_294);
}

#[test]
fn degenerate_prefix_31_reports_zero_hosts() {
    let r = report("10.0.0.0/31");
    assert_eq!(r.network, 0x0A00_0000);
    assert_eq!(r.broadcast, 0x0A00_0001);
    assert_eq!(r.usable_hosts, 0);
}

#[test]
fn network_le_broadcast_and_host_bits_clear() {
    for prefix in 0u32..=32 {
        let r = report(&format!("198.51.100.23/{}", prefix));
        assert!(r.network <= r.broadcast);
        assert_eq!(r.network & !r.mask, 0);
        if prefix < 32 {
            assert_eq!((r.network as u64) % (1u64 << (32 - prefix)), 0);
        }
    }
}

#[test]
fn recomputing_is_idempotent() {
    let first = subnet_calculator("192.168.1.0/24");
    let second = subnet_calculator("192.168.1.0/24");
    assert_eq!(first, second);
    let a = first.unwrap().render();
    let b = second.unwrap().render();
    assert_eq!(a, b);
}

#[test]
fn host_bits_are_masked_off() {
    let r = report("192.168.1.77/24");
    assert_eq!(r.ip, 0xC0A8_014D);
    assert_eq!(r.network, 0xC0A8_0100);
    assert_eq!(r.broadcast, 0xC0A8_01FF);
}

#[test]
fn malformed_inputs() {
    assert_eq!(error(""), CidrError::MalformedCidr);
    assert_eq!(error("/"), CidrError::MalformedCidr);
    assert_eq!(error("/24"), CidrError::MalformedCidr);
    assert_eq!(error("1.2.3.4/"), CidrError::MalformedCidr);
    assert_eq!(error("1.2.3.4/8/9"), CidrError::MalformedCidr);
    assert_eq!(error("1.2.3.4//8"), CidrError::MalformedCidr);
}

#[test]
fn invalid_addresses() {
    assert_eq!(error("256.0.0.1/8"), CidrError::InvalidAddress);
    assert_eq!(error("1.2.3/8"), CidrError::InvalidAddress);
    assert_eq!(error("1.2.3.4.5/8"), CidrError::InvalidAddress);
    assert_eq!(error("1..2.3/8"), CidrError::InvalidAddress);
    assert_eq!(error(".1.2.3/8"), CidrError::InvalidAddress);
    assert_eq!(error("1.2.3./8"), CidrError::InvalidAddress);
    assert_eq!(error("01.2.3.4/8"), CidrError::InvalidAddress);
    assert_eq!(error("1.2.3.x/8"), CidrError::InvalidAddress);
    assert_eq!(error("300000000000.2.3.4/8"), CidrError::InvalidAddress);
    assert_eq!(error(" 1.2.3.4/8"), CidrError::InvalidAddress);
}

#[test]
fn invalid_prefix_syntax() {
    assert_eq!(error("1.2.3.4/a"), CidrError::InvalidPrefixSyntax);
    assert_eq!(error("1.2.3.4/2x"), CidrError::InvalidPrefixSyntax);
    assert_eq!(error("1.2.3.4/-1"), CidrError::InvalidPrefixSyntax);
    assert_eq!(error("1.2.3.4/ 8"), CidrError::InvalidPrefixSyntax);
}

#[test]
fn prefix_out_of_range_values() {
    assert_eq!(error("1.2.3.4/33"), CidrError::PrefixOutOfRange);
    assert_eq!(error("1.2.3.4/255"), CidrError::PrefixOutOfRange);
    assert_eq!(error("1.2.3.4/99999999999999999999"), CidrError::PrefixOutOfRange);
}

#[test]
fn prefix_with_leading_zeros_is_accepted() {
    let r = report("1.2.3.4/0024");
    assert_eq!(r.mask, 0xFFFF_FF00);
    assert_eq!(r.usable_hosts, 254);
}

#[test]
fn address_extreme_octets() {
    let r = report("255.255.255.255/32");
    assert_eq!(r.ip, 0xFFFF_FFFF);
    let r = report("0.0.0.0/32");
    assert_eq!(r.ip, 0x0000_0000);
}

#[test]
fn cidr_input_construction() {
    let c = CidrInput::new(0xC0A8_0100, 24).expect("prefix 24 is valid");
    assert_eq!(c.addr(), 0xC0A8_0100);
    assert_eq!(c.prefix(), 24);
    assert!(CidrInput::new(0, 32).is_some());
    assert!(CidrInput::new(0, 33).is_none());
    assert!(CidrInput::new(0, u32::MAX).is_none());
}

#[test]
fn compute_from_cidr_input() {
    let c = CidrInput::new(0x0A00_0005, 8).expect("prefix 8 is valid");
    let r = SubnetReport::compute(c);
    assert_eq!(r.network, 0x0A00_0000);
    assert_eq!(r.broadcast, 0x0AFF_FFFF);
    assert_eq!(r.usable_hosts, 16_777_214);
}
