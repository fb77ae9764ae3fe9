use eh2telegraph::address::{parse_address_block, AddressBlock};
use eh2telegraph::http_client::{GhostClientBuilder, PinnedAddr, CF_ADDR_BITS, HTTPS_PORT, TG_ADDR_BITS, UA};
use eh2telegraph::http_proxy::{ProxiedClient, ProxyError};

fn host_mask(prefix_len: u8) -> u128 {
    if prefix_len == 0 {
        u128::MAX
    } else {
        !(u128::MAX << (128 - prefix_len as u32))
    }
}

#[test]
fn rotated_address_stays_in_block() {
    let block = AddressBlock { addr: 0x2001_0db8_0000_0000_0000_0000_0000_0000, prefix_len: 48 };
    let mask = host_mask(48);
    for entropy in [0u128, 1, u128::MAX, 0xdead_beef_dead_beef_dead_beef_dead_beef] {
        let a = block.rotated_address(entropy);
        assert_eq!(a & !mask, block.addr & !mask);
        assert_eq!(a, (entropy & mask) | block.addr);
    }
}

#[test]
fn rotated_address_exact_value() {
    let block = AddressBlock { addr: 0xffff_0000_0000_0000_0000_0000_0000_0000, prefix_len: 16 };
    let a = block.rotated_address(0x1234);
    assert_eq!(a, 0xffff_0000_0000_0000_0000_0000_0000_1234);
}

#[test]
fn parse_block_accepts_cidr() {
    let b = parse_address_block("2001:db8::/48").expect("valid block");
    assert_eq!(b.prefix_len, 48);
    assert_eq!(b.addr, 0x2001_0db8_0000_0000_0000_0000_0000_0000);
    assert!(parse_address_block("not a block").is_none());
    assert!(parse_address_block("2001:db8::/129").is_none());
}

#[test]
fn clones_rotate_within_block() {
    let block = parse_address_block("2001:db8:1::/48").expect("valid block");
    let client = GhostClientBuilder::new().build(Some(block)).expect("build");
    let mask = host_mask(48);
    let mut addrs = Vec::new();
    for _ in 0..8 {
        let c = client.clone().expect("clone");
        let a = c.local_addr.expect("rotated transport has an address");
        assert_eq!(a & !mask, block.addr & !mask);
        addrs.push(a);
    }
    // probabilistically certain for a /48 block: not all eight draws agree
    assert!(addrs.iter().any(|a| *a != addrs[0]));
}

#[test]
fn refresh_redraws_within_block() {
    let block = parse_address_block("2001:db8:2::/64").expect("valid block");
    let mut client = GhostClientBuilder::new().build(Some(block)).expect("build");
    let mask = host_mask(64);
    client.refresh().expect("refresh");
    let a = client.local_addr.expect("address");
    assert_eq!(a & !mask, block.addr & !mask);
}

#[test]
fn degraded_mode_has_no_address() {
    let client = GhostClientBuilder::new().build(None).expect("build");
    assert!(client.local_addr.is_none());
    assert!(client.prefix.is_none());
    let c2 = client.clone().expect("clone");
    assert!(c2.local_addr.is_none());
}

#[test]
fn cf_resolve_pins_every_domain() {
    let domains = vec!["a.example".to_string(), "b.example".to_string()];
    let b = GhostClientBuilder::new().with_cf_resolve(&domains);
    assert_eq!(b.mapping.len(), 2);
    assert_eq!(b.mapping[0].0, "a.example");
    assert_eq!(b.mapping[0].1, PinnedAddr { addr: CF_ADDR_BITS, port: HTTPS_PORT });
    assert_eq!(b.mapping[1].0, "b.example");
    assert_eq!(b.mapping[1].1, PinnedAddr { addr: CF_ADDR_BITS, port: HTTPS_PORT });
}

#[test]
fn tg_resolve_pins_both_endpoints() {
    let b = GhostClientBuilder::new().with_tg_resolve();
    assert_eq!(b.mapping.len(), 2);
    assert_eq!(b.mapping[0].0, "telegra.ph");
    assert_eq!(b.mapping[1].0, "api.telegra.ph");
    assert_eq!(b.mapping[0].1, PinnedAddr { addr: TG_ADDR_BITS, port: HTTPS_PORT });
}

#[test]
fn default_headers_are_kept_by_the_builder() {
    let headers = vec![("x-extra".to_string(), "1".to_string())];
    let b = GhostClientBuilder::new().with_default_headers(headers);
    assert_eq!(b.headers.as_ref().map(|h| h.len()), Some(1));
    let client = b.build(None).expect("build");
    assert_eq!(client.headers.as_ref().map(|h| h[0].0.as_str()), Some("x-extra"));
}

#[test]
fn ua_is_fixed() {
    assert!(UA.starts_with("Mozilla/5.0"));
}

#[test]
fn proxied_client_validates_configuration() {
    assert_eq!(
        ProxiedClient::new("not a url", "Bearer x").err(),
        Some(ProxyError::InvalidEndpoint)
    );
    assert_eq!(
        ProxiedClient::new("https://proxy.example/", "bad\nvalue").err(),
        Some(ProxyError::InvalidAuthorization)
    );
    let c = ProxiedClient::new("https://proxy.example/", "token-123").expect("valid config");
    let p = c.proxy.as_ref().expect("proxy configured");
    assert_eq!(p.endpoint, "https://proxy.example/");
}

#[test]
fn request_plan_routes_through_proxy() {
    let c = ProxiedClient::new("https://proxy.example/", "token").expect("valid config");
    let plan = c.request_plan("https://target.example/item/1");
    assert_eq!(plan.target, "https://proxy.example/");
    assert_eq!(plan.forwarded_for.as_deref(), Some("https://target.example/item/1"));
    assert_eq!(plan.authorization.as_deref(), Some("token"));
}

#[test]
fn request_plan_direct_without_proxy() {
    let c = ProxiedClient::direct().expect("build");
    let plan = c.request_plan("https://target.example/item/1");
    assert_eq!(plan.target, "https://target.example/item/1");
    assert!(plan.forwarded_for.is_none());
    assert!(plan.authorization.is_none());
}
