//! HTTP transport with source-address rotation and resolver overrides.
//!
//! A transport built over an address block binds its outbound connections
//! to a random address drawn from the block; cloning or refreshing draws a
//! fresh address, so consecutive requests appear to originate from
//! different sources. A fixed set of hostnames can be pinned to fixed
//! socket addresses, bypassing DNS for them; the overrides are applied
//! only when address rotation is enabled.

use vstd::prelude::*;

use crate::address::AddressBlock;

verus! {

/// Identifying User-Agent header value set on every request unless
/// overridden by caller-supplied default headers.
pub const UA: &'static str =
    "Mozilla/5.0 (Macintosh; Intel Mac OS X 10_15_7) AppleWebKit/537.36 (KHTML, like Gecko) Chrome/97.0.4692.99 Safari/537.36";

/// The fixed resolver target for the CDN front door, as address bits.
pub const CF_ADDR_BITS: u128 = 0x2606_4700_4700_0000_0000_0000_0000_1111;

/// The fixed resolver target for the publishing endpoint, as address bits.
pub const TG_ADDR_BITS: u128 = 0x2001_067c_04e8_1033_0001_0100_0000_000a;

/// Default TLS port for pinned resolver targets.
pub const HTTPS_PORT: u16 = 443;

/// A pinned socket address: 128 address bits and a port.
#[derive(Clone, Copy, PartialEq, Eq, Structural, Debug)]
pub struct PinnedAddr {
    pub addr: u128,
    pub port: u16,
}

/// Failure to build the underlying client: a non-recoverable
/// configuration error, not a per-request failure.
#[derive(Clone, Copy, PartialEq, Eq, Structural, Debug)]
pub enum TransportError {
    Build,
}

#[verifier::external_type_specification]
#[verifier::external_body]
pub struct ExReqwestClient(reqwest::Client);

#[verifier::external_type_specification]
#[verifier::external_body]
pub struct ExReqwestClientBuilder(reqwest::ClientBuilder);

#[verifier::external_type_specification]
#[verifier::external_body]
pub struct ExReqwestError(reqwest::Error);

#[verifier::external_type_specification]
#[verifier::external_body]
#[verifier::reject_recursive_types(T)]
pub struct ExHeaderMap<T>(reqwest::header::HeaderMap<T>);

#[verifier::external_type_specification]
#[verifier::external_body]
pub struct ExHeaderValue(reqwest::header::HeaderValue);

/// An upper bound on the default-header lists this crate hands to the
/// HTTP stack, with ample margin under the header table's own maximum
/// number of entries; below it every insertion is owed to succeed.
pub const MAX_DEFAULT_HEADERS: usize = 16384;

/// The normalised header name that http's HeaderName parser accepts for a
/// string, if any; a function of the characters alone.
pub uninterp spec fn header_name_of(s: Seq<char>) -> Option<Seq<char>>;

/// Whether http's HeaderValue parser accepts a string; a function of the
/// characters alone.
pub uninterp spec fn is_valid_header_value(s: Seq<char>) -> bool;

/// The contents of a header map: each held normalised name to its value.
pub uninterp spec fn header_entries(m: reqwest::header::HeaderMap<reqwest::header::HeaderValue>) -> Map<Seq<char>, Seq<char>>;

/// The header table a list of name/value strings stands for: the pairs
/// whose name and value parse, a later pair overriding an earlier one
/// under the same normalised name; a pair that does not parse is skipped.
pub open spec fn spec_header_map(s: Seq<(String, String)>) -> Map<Seq<char>, Seq<char>>
    decreases s.len(),
{
    if s.len() == 0 {
        Map::empty()
    } else {
        let m = spec_header_map(s.drop_last());
        let p = s.last();
        if header_name_of(p.0@) is Some && is_valid_header_value(p.1@) {
            m.insert(header_name_of(p.0@).unwrap(), p.1@)
        } else {
            m
        }
    }
}

/// The header table never holds more entries than the list has pairs.
pub proof fn lemma_spec_header_map_len(s: Seq<(String, String)>)
    ensures
        spec_header_map(s).dom().finite(),
        spec_header_map(s).dom().len() <= s.len(),
    decreases s.len(),
{
    if s.len() > 0 {
        lemma_spec_header_map_len(s.drop_last());
    }
}

/// Relies on reqwest::Client::builder: a fresh client builder.
#[verifier::external_body]
pub(crate) fn new_client_builder() -> reqwest::ClientBuilder {
    reqwest::Client::builder()
}

/// Relies on reqwest::ClientBuilder::user_agent: sets the default
/// User-Agent header value.
#[verifier::external_body]
pub(crate) fn builder_user_agent(b: reqwest::ClientBuilder, ua: &str) -> reqwest::ClientBuilder {
    b.user_agent(ua)
}

/// Relies on http's HeaderMap::with_capacity: an empty header map
/// pre-sized for the given number of entries; a size under the table's
/// maximum cannot overflow it.
#[verifier::external_body]
fn new_header_map(capacity: usize) -> (r: reqwest::header::HeaderMap<reqwest::header::HeaderValue>)
    requires
        capacity < MAX_DEFAULT_HEADERS,
    ensures
        header_entries(r) =~= Map::empty(),
{
    reqwest::header::HeaderMap::with_capacity(capacity)
}

/// Relies on http's HeaderMap::try_insert: adds the header when the name
/// and the value parse, replacing any value held under the same normalised
/// name, and reports whether it did; a table at its maximum refuses
/// instead of growing, so below the bound the insertion is owed.
#[verifier::external_body]
pub(crate) fn header_map_insert(
    m: &mut reqwest::header::HeaderMap<reqwest::header::HeaderValue>,
    name: &str,
    value: &str,
) -> (r: bool)
    ensures
        r ==> header_name_of(name@) is Some && is_valid_header_value(value@) && header_entries(
            *final(m),
        ) == header_entries(*old(m)).insert(header_name_of(name@).unwrap(), value@),
        !r ==> header_entries(*final(m)) == header_entries(*old(m)),
        (header_name_of(name@) is Some && is_valid_header_value(value@) && header_entries(
            *old(m),
        ).dom().finite() && header_entries(*old(m)).dom().len() < MAX_DEFAULT_HEADERS) ==> r,
{
    match (
        <reqwest::header::HeaderName as core::str::FromStr>::from_str(name),
        <reqwest::header::HeaderValue as core::str::FromStr>::from_str(value),
    ) {
        (Ok(n), Ok(v)) => m.try_insert(n, v).is_ok(),
        _ => false,
    }
}

/// Relies on reqwest::ClientBuilder::default_headers: inserts every entry
/// of the given map into the client's default headers; the bound keeps
/// those insertions under the header table's maximum.
#[verifier::external_body]
pub(crate) fn builder_default_headers(
    b: reqwest::ClientBuilder,
    m: reqwest::header::HeaderMap<reqwest::header::HeaderValue>,
) -> reqwest::ClientBuilder
    requires
        header_entries(m).dom().finite(),
        header_entries(m).dom().len() < MAX_DEFAULT_HEADERS,
{
    b.default_headers(m)
}

/// Relies on reqwest::ClientBuilder::local_address: binds outbound
/// connections to the given IPv6 address bits.
#[verifier::external_body]
fn builder_local_address(b: reqwest::ClientBuilder, addr_bits: u128) -> reqwest::ClientBuilder {
    b.local_address(core::net::IpAddr::V6(core::net::Ipv6Addr::from(addr_bits)))
}

/// Relies on reqwest::ClientBuilder::resolve: pins the hostname to the
/// given socket address, bypassing DNS for it.
#[verifier::external_body]
fn builder_resolve(
    b: reqwest::ClientBuilder,
    domain: &str,
    addr_bits: u128,
    port: u16,
) -> reqwest::ClientBuilder {
    b.resolve(
        domain,
        core::net::SocketAddr::new(core::net::IpAddr::V6(core::net::Ipv6Addr::from(addr_bits)), port),
    )
}

/// Relies on reqwest::ClientBuilder::build: finishes the client, failing
/// only on a configuration error.
#[verifier::external_body]
pub(crate) fn builder_build(b: reqwest::ClientBuilder) -> Result<reqwest::Client, reqwest::Error> {
    b.build()
}

/// Relies on rand::random: draws a fresh pseudo-random value; nothing is
/// promised of it.
#[verifier::external_body]
fn random_u128() -> u128 {
    rand::random()
}

/// Copies a resolver mapping.
fn clone_mapping(v: &Vec<(String, PinnedAddr)>) -> (r: Vec<(String, PinnedAddr)>)
    ensures
        r@ == v@,
{
    let mut r: Vec<(String, PinnedAddr)> = Vec::new();
    let mut i: usize = 0;
    while i < v.len()
        invariant
            0 <= i <= v@.len(),
            r@ == v@.subrange(0, i as int),
        decreases v@.len() - i,
    {
        let p = &v[i];
        r.push((p.0.clone(), p.1));
        proof {
            assert(r@ =~= v@.subrange(0, i + 1));
        }
        i = i + 1;
    }
    proof {
        assert(r@ =~= v@);
    }
    r
}

/// The abstract value of an optional header list.
pub open spec fn headers_view(h: Option<Vec<(String, String)>>) -> Option<Seq<(String, String)>> {
    match h {
        Some(v) => Some(v@),
        None => None,
    }
}

/// Copies an optional header list.
fn clone_headers(h: &Option<Vec<(String, String)>>) -> (r: Option<Vec<(String, String)>>)
    ensures
        headers_view(r) == headers_view(*h),
{
    match h {
        None => None,
        Some(v) => {
            let mut r: Vec<(String, String)> = Vec::new();
            let mut i: usize = 0;
            while i < v.len()
                invariant
                    0 <= i <= v@.len(),
                    r@ == v@.subrange(0, i as int),
                decreases v@.len() - i,
            {
                let p = &v[i];
                r.push((p.0.clone(), p.1.clone()));
                proof {
                    assert(r@ =~= v@.subrange(0, i + 1));
                }
                i = i + 1;
            }
            proof {
                assert(r@ =~= v@);
            }
            Some(r)
        }
    }
}

/// The header map a list of pairs stands for: exactly its parseable
/// pairs; a pair whose name or value does not parse is skipped.
pub(crate) fn header_map_of(headers: &Vec<(String, String)>) -> (m: reqwest::header::HeaderMap<
    reqwest::header::HeaderValue,
>)
    requires
        headers@.len() < MAX_DEFAULT_HEADERS,
    ensures
        header_entries(m) == spec_header_map(headers@),
        header_entries(m).dom().finite(),
        header_entries(m).dom().len() < MAX_DEFAULT_HEADERS,
{
    let mut m = new_header_map(headers.len());
    proof {
        assert(headers@.subrange(0, 0) =~= Seq::<(String, String)>::empty());
    }
    let mut i: usize = 0;
    while i < headers.len()
        invariant
            0 <= i <= headers@.len() < MAX_DEFAULT_HEADERS,
            header_entries(m) == spec_header_map(headers@.subrange(0, i as int)),
        decreases headers@.len() - i,
    {
        proof {
            lemma_spec_header_map_len(headers@.subrange(0, i as int));
            assert(headers@.subrange(0, i + 1).drop_last() =~= headers@.subrange(0, i as int));
            assert(headers@.subrange(0, i + 1).last() == headers@[i as int]);
        }
        let h = &headers[i];
        let _ = header_map_insert(&mut m, h.0.as_str(), h.1.as_str());
        i = i + 1;
    }
    proof {
        assert(headers@.subrange(0, headers@.len() as int) =~= headers@);
        lemma_spec_header_map_len(headers@);
    }
    m
}

/// Builder for the rotating transport: the resolver override table and the
/// optional default headers, both immutable once the client is built.
pub struct GhostClientBuilder {
    pub mapping: Vec<(String, PinnedAddr)>,
    pub headers: Option<Vec<(String, String)>>,
}

/// HTTP transport bound to one rotated source address. `local_addr` holds
/// the address the underlying client was bound to, drawn from `prefix`;
/// without a block the transport keeps default outbound behaviour and no
/// overrides are applied.
pub struct GhostClient {
    pub prefix: Option<AddressBlock>,
    pub mapping: Vec<(String, PinnedAddr)>,
    pub headers: Option<Vec<(String, String)>>,
    pub local_addr: Option<u128>,
    pub inner: reqwest::Client,
}

impl GhostClientBuilder {
    /// An empty builder: no overrides, no extra headers.
    pub fn new() -> (r: GhostClientBuilder)
        ensures
            r.mapping@ == Seq::<(String, PinnedAddr)>::empty(),
            r.headers is None,
    {
        GhostClientBuilder { mapping: Vec::new(), headers: None }
    }

    /// Replaces the default headers of every request the transport makes.
    pub fn with_default_headers(self, headers: Vec<(String, String)>) -> (r: GhostClientBuilder)
        ensures
            r.mapping == self.mapping,
            r.headers == Some(headers),
    {
        GhostClientBuilder { headers: Some(headers), ..self }
    }

    /// Pins every given hostname to the CDN front door address, to defeat
    /// hostile or unreliable DNS for those endpoints.
    pub fn with_cf_resolve(self, domains: &Vec<String>) -> (r: GhostClientBuilder)
        ensures
            r.headers == self.headers,
            r.mapping@.len() == self.mapping@.len() + domains@.len(),
            forall|i: int|
                0 <= i < self.mapping@.len() ==> r.mapping@[i] == self.mapping@[i],
            forall|i: int|
                0 <= i < domains@.len() ==> (#[trigger] r.mapping@[self.mapping@.len() + i]).0@
                    == domains@[i]@ && r.mapping@[self.mapping@.len() + i].1 == (PinnedAddr {
                    addr: CF_ADDR_BITS,
                    port: HTTPS_PORT,
                }),
    {
        let mut mapping = self.mapping;
        let ghost m0 = mapping@;
        let mut i: usize = 0;
        while i < domains.len()
            invariant
                0 <= i <= domains@.len(),
                mapping@.len() == m0.len() + i,
                forall|j: int| 0 <= j < m0.len() ==> mapping@[j] == m0[j],
                forall|j: int|
                    0 <= j < i ==> (#[trigger] mapping@[m0.len() + j]).0@ == domains@[j]@
                        && mapping@[m0.len() + j].1 == (PinnedAddr {
                        addr: CF_ADDR_BITS,
                        port: HTTPS_PORT,
                    }),
            decreases domains@.len() - i,
        {
            let d = &domains[i];
            mapping.push((d.clone(), PinnedAddr { addr: CF_ADDR_BITS, port: HTTPS_PORT }));
            i = i + 1;
        }
        GhostClientBuilder { mapping, ..self }
    }

    /// Pins the publishing endpoints to their fixed address. Kept for
    /// compatibility; the endpoint now rejects this transport family.
    pub fn with_tg_resolve(self) -> (r: GhostClientBuilder)
        ensures
            r.headers == self.headers,
            r.mapping@.len() == self.mapping@.len() + 2,
            forall|i: int|
                0 <= i < self.mapping@.len() ==> r.mapping@[i] == self.mapping@[i],
            r.mapping@[self.mapping@.len() as int].0@ == ("telegra.ph")@,
            r.mapping@[self.mapping@.len() as int + 1].0@ == ("api.telegra.ph")@,
            r.mapping@[self.mapping@.len() as int].1 == (PinnedAddr {
                addr: TG_ADDR_BITS,
                port: HTTPS_PORT,
            }),
            r.mapping@[self.mapping@.len() as int + 1].1 == (PinnedAddr {
                addr: TG_ADDR_BITS,
                port: HTTPS_PORT,
            }),
    {
        let mut mapping = self.mapping;
        mapping.push((String::from_str("telegra.ph"), PinnedAddr { addr: TG_ADDR_BITS, port: HTTPS_PORT }));
        mapping.push((String::from_str("api.telegra.ph"), PinnedAddr { addr: TG_ADDR_BITS, port: HTTPS_PORT }));
        GhostClientBuilder { mapping, ..self }
    }

    /// Builds the transport. With a block, a fresh random address inside
    /// the block is drawn and bound, and the resolver overrides are
    /// applied; without one the transport keeps default behaviour.
    pub fn build(self, prefix: Option<AddressBlock>) -> (r: Result<GhostClient, TransportError>)
        requires
            prefix matches Some(b) ==> b.wf(),
            self.headers matches Some(h) ==> h@.len() < MAX_DEFAULT_HEADERS,
        ensures
            r matches Ok(c) ==> c.wf() && c.prefix == prefix && c.mapping@ == self.mapping@
                && c.headers == self.headers,
    {
        match GhostClient::build_raw(&prefix, &self.mapping, &self.headers) {
            Ok((inner, local_addr)) => Ok(
                GhostClient { prefix, mapping: self.mapping, headers: self.headers, local_addr, inner },
            ),
            Err(e) => Err(e),
        }
    }
}

impl GhostClient {
    /// A transport is well formed when its bound address, if any, was
    /// drawn from its block: rotation happens exactly when a block is
    /// configured, and the address always lies within the block.
    pub open spec fn wf(self) -> bool {
        &&& (self.prefix matches Some(b) ==> b.wf())
        &&& (self.local_addr is Some <==> self.prefix is Some)
        &&& (self.prefix matches Some(b) ==> (self.local_addr matches Some(a) ==> b.contains(a)))
        &&& (self.headers matches Some(h) ==> h@.len() < MAX_DEFAULT_HEADERS)
    }

    /// A fresh builder.
    pub fn builder() -> (r: GhostClientBuilder)
        ensures
            r.mapping@ == Seq::<(String, PinnedAddr)>::empty(),
            r.headers is None,
    {
        GhostClientBuilder::new()
    }

    /// Builds the underlying client: sets the identifying User-Agent and
    /// the default headers, and, when a block is given, draws a random
    /// address inside it, binds to it, and applies every resolver
    /// override. Returns the client with the drawn address.
    fn build_raw(
        prefix: &Option<AddressBlock>,
        mapping: &Vec<(String, PinnedAddr)>,
        headers: &Option<Vec<(String, String)>>,
    ) -> (r: Result<(reqwest::Client, Option<u128>), TransportError>)
        requires
            prefix matches Some(b) ==> b.wf(),
            headers matches Some(h) ==> h@.len() < MAX_DEFAULT_HEADERS,
        ensures
            r matches Ok(p) ==> (p.1 is Some <==> prefix is Some),
            r matches Ok(p) ==> (prefix is Some ==> prefix.unwrap().contains(p.1.unwrap())),
    {
        let mut b = new_client_builder();
        b = builder_user_agent(b, UA);
        match headers {
            Some(hs) => {
                let m = header_map_of(hs);
                b = builder_default_headers(b, m);
            }
            None => {}
        }
        let mut chosen: Option<u128> = None;
        match prefix {
            Some(blk) => {
                let entropy = random_u128();
                let a = blk.rotated_address(entropy);
                b = builder_local_address(b, a);
                let mut i: usize = 0;
                while i < mapping.len()
                    invariant
                        blk.wf(),
                        blk.contains(a),
                    decreases mapping@.len() - i,
                {
                    let e = &mapping[i];
                    b = builder_resolve(b, e.0.as_str(), e.1.addr, e.1.port);
                    i = i + 1;
                }
                chosen = Some(a);
                proof {
                    assert((*prefix).unwrap().contains(chosen.unwrap()));
                }
            }
            None => {}
        }
        proof {
            assert(chosen is Some <==> (*prefix) is Some);
            assert((*prefix) is Some ==> (*prefix).unwrap().contains(chosen.unwrap()));
        }
        match builder_build(b) {
            Ok(c) => Ok((c, chosen)),
            Err(_) => Err(TransportError::Build),
        }
    }

    /// A new independent transport with the same block, overrides and
    /// headers, and a freshly re-randomized source address. This is the
    /// mechanism by which consecutive requests appear to originate from
    /// different sources; concurrent call sites each take their own clone.
    pub fn clone(&self) -> (r: Result<GhostClient, TransportError>)
        requires
            self.wf(),
        ensures
            r matches Ok(c) ==> c.wf() && c.prefix == self.prefix && c.mapping@ == self.mapping@
                && headers_view(c.headers) == headers_view(self.headers),
    {
        let mapping = clone_mapping(&self.mapping);
        let headers = clone_headers(&self.headers);
        match Self::build_raw(&self.prefix, &mapping, &headers) {
            Ok((inner, local_addr)) => Ok(
                GhostClient { prefix: self.prefix, mapping, headers, local_addr, inner },
            ),
            Err(e) => Err(e),
        }
    }

    /// In-place equivalent of `clone`: replaces the internal client with
    /// one bound to a freshly drawn address; configuration is unchanged.
    pub fn refresh(&mut self) -> (r: Result<(), TransportError>)
        requires
            old(self).wf(),
        ensures
            final(self).wf(),
            final(self).prefix == old(self).prefix,
            final(self).mapping@ == old(self).mapping@,
            final(self).headers == old(self).headers,
            r is Err ==> *final(self) == *old(self),
    {
        match Self::build_raw(&self.prefix, &self.mapping, &self.headers) {
            Ok((inner, local_addr)) => {
                self.inner = inner;
                self.local_addr = local_addr;
                Ok(())
            }
            Err(e) => Err(e),
        }
    }

    /// The underlying client, for the driver that performs requests.
    pub fn client(&self) -> &reqwest::Client {
        &self.inner
    }
}

} // verus!
