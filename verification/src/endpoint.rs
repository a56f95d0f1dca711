//! Endpoint resolution: scan a device's configuration/interface/endpoint
//! descriptor tree, in enumeration order, for the first bulk-OUT endpoint.
//!
//! The descriptor tree is held as plain data — exactly the fields the
//! resolution reads — so the traversal itself is verified: the result is
//! pinned to a spec-level walk of the same tree.

use vstd::prelude::*;
use crate::error::SetupError;

verus! {

/// The direction of a USB endpoint.
#[derive(Clone, Copy, Debug, PartialEq, Eq, Structural)]
pub enum Direction {
    /// Device-to-host.
    In,
    /// Host-to-device.
    Out,
}

/// The transfer type of a USB endpoint.
#[derive(Clone, Copy, Debug, PartialEq, Eq, Structural)]
pub enum TransferType {
    /// Control transfers.
    Control,
    /// Isochronous transfers.
    Isochronous,
    /// Bulk transfers.
    Bulk,
    /// Interrupt transfers.
    Interrupt,
}

/// The fields of a USB endpoint descriptor that endpoint resolution reads.
#[derive(Clone, Copy, Debug, PartialEq, Eq, Structural)]
pub struct EndpointDesc {
    /// The endpoint address (number and direction bit).
    pub address: u8,
    /// The direction encoded in the address.
    pub direction: Direction,
    /// The transfer type from the endpoint's attributes.
    pub transfer_type: TransferType,
    /// The maximum packet size, in bytes.
    pub max_packet_size: u16,
}

/// One interface descriptor (an interface's alternate setting) and its
/// endpoint descriptors, in enumeration order.
#[derive(Clone, Debug)]
pub struct InterfaceDesc {
    /// The number of the interface this descriptor belongs to.
    pub interface_number: u8,
    /// The endpoint descriptors, in enumeration order.
    pub endpoints: Vec<EndpointDesc>,
}

/// One configuration: its interface descriptors across all interfaces and
/// alternate settings, flattened in enumeration order.
#[derive(Clone, Debug)]
pub struct ConfigDesc {
    /// The interface descriptors, in enumeration order.
    pub interfaces: Vec<InterfaceDesc>,
}

/// What endpoint resolution selects: the endpoint's address, the number of
/// the interface that owns it (to be claimed before writing), and the
/// endpoint's maximum packet size (the write chunk size).
#[derive(Clone, Copy, Debug, PartialEq, Eq, Structural)]
pub struct EndpointMatch {
    /// The selected endpoint's address.
    pub address: u8,
    /// The number of the interface owning the selected endpoint.
    pub interface_number: u8,
    /// The selected endpoint's maximum packet size, in bytes.
    pub max_packet_size: u16,
}

/// Whether an endpoint is a bulk-OUT endpoint.
pub open spec fn spec_is_bulk_out(e: EndpointDesc) -> bool {
    e.direction == Direction::Out && e.transfer_type == TransferType::Bulk
}

/// The selection an endpoint yields for the interface that owns it.
pub open spec fn spec_match_of(interface_number: u8, e: EndpointDesc) -> EndpointMatch {
    EndpointMatch {
        address: e.address,
        interface_number: interface_number,
        max_packet_size: e.max_packet_size,
    }
}

/// The first bulk-OUT endpoint among `eps[k..]`, owned by interface
/// `interface_number`.
pub open spec fn spec_resolve_endpoints(
    interface_number: u8,
    eps: Seq<EndpointDesc>,
    k: int,
) -> Option<EndpointMatch>
    decreases eps.len() - k,
    when 0 <= k <= eps.len()
{
    if k >= eps.len() {
        None
    } else if spec_is_bulk_out(eps[k]) {
        Some(spec_match_of(interface_number, eps[k]))
    } else {
        spec_resolve_endpoints(interface_number, eps, k + 1)
    }
}

/// The first bulk-OUT endpoint among the interface descriptors `ifs[j..]`,
/// scanning each descriptor's endpoints in order.
pub open spec fn spec_resolve_interfaces(ifs: Seq<InterfaceDesc>, j: int) -> Option<EndpointMatch>
    decreases ifs.len() - j,
    when 0 <= j <= ifs.len()
{
    if j >= ifs.len() {
        None
    } else {
        match spec_resolve_endpoints(ifs[j].interface_number, ifs[j].endpoints@, 0) {
            Some(m) => Some(m),
            None => spec_resolve_interfaces(ifs, j + 1),
        }
    }
}

/// The first bulk-OUT endpoint among the configurations `cs[i..]`, scanning
/// each configuration's interface descriptors in order.
pub open spec fn spec_resolve_configs(cs: Seq<ConfigDesc>, i: int) -> Option<EndpointMatch>
    decreases cs.len() - i,
    when 0 <= i <= cs.len()
{
    if i >= cs.len() {
        None
    } else {
        match spec_resolve_interfaces(cs[i].interfaces@, 0) {
            Some(m) => Some(m),
            None => spec_resolve_configs(cs, i + 1),
        }
    }
}

/// The endpoint the resolver selects on a descriptor tree: the first
/// bulk-OUT endpoint in configuration/interface/endpoint enumeration order,
/// or `None` when the tree holds no bulk-OUT endpoint.
pub open spec fn spec_resolve(cs: Seq<ConfigDesc>) -> Option<EndpointMatch> {
    spec_resolve_configs(cs, 0)
}

/// Whether this endpoint is a bulk-OUT endpoint.
pub fn is_bulk_out(e: &EndpointDesc) -> (r: bool)
    ensures
        r == spec_is_bulk_out(*e),
{
    e.direction == Direction::Out && e.transfer_type == TransferType::Bulk
}

fn resolve_in_endpoints(interface_number: u8, endpoints: &Vec<EndpointDesc>) -> (r: Option<
    EndpointMatch,
>)
    ensures
        r == spec_resolve_endpoints(interface_number, endpoints@, 0),
{
    let mut k: usize = 0;
    while k < endpoints.len()
        invariant
            k <= endpoints@.len(),
            spec_resolve_endpoints(interface_number, endpoints@, 0)
                == spec_resolve_endpoints(interface_number, endpoints@, k as int),
        decreases endpoints@.len() - k,
    {
        let e = &endpoints[k];
        if is_bulk_out(e) {
            return Some(
                EndpointMatch {
                    address: e.address,
                    interface_number: interface_number,
                    max_packet_size: e.max_packet_size,
                },
            );
        }
        k = k + 1;
    }
    None
}

fn resolve_in_interfaces(interfaces: &Vec<InterfaceDesc>) -> (r: Option<EndpointMatch>)
    ensures
        r == spec_resolve_interfaces(interfaces@, 0),
{
    let mut j: usize = 0;
    while j < interfaces.len()
        invariant
            j <= interfaces@.len(),
            spec_resolve_interfaces(interfaces@, 0) == spec_resolve_interfaces(
                interfaces@,
                j as int,
            ),
        decreases interfaces@.len() - j,
    {
        let interface = &interfaces[j];
        let found = resolve_in_endpoints(interface.interface_number, &interface.endpoints);
        if let Some(m) = found {
            return Some(m);
        }
        j = j + 1;
    }
    None
}

/// Scan the descriptor tree for the first bulk-OUT endpoint: configurations
/// in ascending order, within each the interface descriptors in enumeration
/// order, within each the endpoint descriptors in enumeration order; the
/// first match wins.
pub fn find_writeable_endpoint(configs: &Vec<ConfigDesc>) -> (r: Option<EndpointMatch>)
    ensures
        r == spec_resolve(configs@),
{
    let mut i: usize = 0;
    while i < configs.len()
        invariant
            i <= configs@.len(),
            spec_resolve_configs(configs@, 0) == spec_resolve_configs(configs@, i as int),
        decreases configs@.len() - i,
    {
        let config = &configs[i];
        let found = resolve_in_interfaces(&config.interfaces);
        if let Some(m) = found {
            return Some(m);
        }
        i = i + 1;
    }
    None
}

/// Resolve the endpoint for a located device, or fail the construction:
/// a device whose descriptor tree holds no bulk-OUT endpoint — and exactly
/// such a device — yields `EndpointNotFound`.
pub fn resolve_or_error(configs: &Vec<ConfigDesc>) -> (r: Result<EndpointMatch, SetupError>)
    ensures
        match r {
            Ok(m) => spec_resolve(configs@) == Some(m),
            Err(e) => e == SetupError::EndpointNotFound && spec_resolve(configs@) is None,
        },
{
    match find_writeable_endpoint(configs) {
        Some(m) => Ok(m),
        None => Err(SetupError::EndpointNotFound),
    }
}

proof fn lemma_resolve_endpoints_unfound(interface_number: u8, eps: Seq<EndpointDesc>, k: int)
    requires
        0 <= k <= eps.len(),
    ensures
        spec_resolve_endpoints(interface_number, eps, k) is None <==> (forall|x: int|
            k <= x < eps.len() ==> !#[trigger] spec_is_bulk_out(eps[x])),
    decreases eps.len() - k,
{
    if k < eps.len() {
        lemma_resolve_endpoints_unfound(interface_number, eps, k + 1);
    }
}

proof fn lemma_resolve_interfaces_unfound(ifs: Seq<InterfaceDesc>, j: int)
    requires
        0 <= j <= ifs.len(),
    ensures
        spec_resolve_interfaces(ifs, j) is None <==> (forall|y: int, x: int|
            j <= y < ifs.len() && 0 <= x < ifs[y].endpoints@.len()
                ==> !#[trigger] spec_is_bulk_out(ifs[y].endpoints@[x])),
    decreases ifs.len() - j,
{
    if j < ifs.len() {
        lemma_resolve_endpoints_unfound(ifs[j].interface_number, ifs[j].endpoints@, 0);
        lemma_resolve_interfaces_unfound(ifs, j + 1);
    }
}

proof fn lemma_resolve_configs_unfound(cs: Seq<ConfigDesc>, i: int)
    requires
        0 <= i <= cs.len(),
    ensures
        spec_resolve_configs(cs, i) is None <==> (forall|z: int, y: int, x: int|
            i <= z < cs.len() && 0 <= y < cs[z].interfaces@.len() && 0 <= x
                < cs[z].interfaces@[y].endpoints@.len()
                ==> !#[trigger] spec_is_bulk_out(cs[z].interfaces@[y].endpoints@[x])),
    decreases cs.len() - i,
{
    if i < cs.len() {
        lemma_resolve_interfaces_unfound(cs[i].interfaces@, 0);
        lemma_resolve_configs_unfound(cs, i + 1);
    }
}

/// Resolution fails exactly on the trees with no bulk-OUT endpoint: the
/// walk over a descriptor tree yields `None` if and only if no endpoint
/// descriptor anywhere in it — any configuration, any interface descriptor —
/// is a bulk-OUT endpoint.
pub proof fn lemma_unresolved_iff_no_bulk_out(cs: Seq<ConfigDesc>)
    ensures
        spec_resolve(cs) is None <==> (forall|z: int, y: int, x: int|
            0 <= z < cs.len() && 0 <= y < cs[z].interfaces@.len() && 0 <= x
                < cs[z].interfaces@[y].endpoints@.len()
                ==> !#[trigger] spec_is_bulk_out(cs[z].interfaces@[y].endpoints@[x])),
{
    lemma_resolve_configs_unfound(cs, 0);
}

proof fn lemma_resolve_endpoints_found(interface_number: u8, eps: Seq<EndpointDesc>, k: int)
    requires
        0 <= k <= eps.len(),
        spec_resolve_endpoints(interface_number, eps, k) is Some,
    ensures
        exists|x: int|
            k <= x < eps.len() && #[trigger] spec_is_bulk_out(eps[x])
                && spec_resolve_endpoints(interface_number, eps, k)
                == Some(spec_match_of(interface_number, eps[x])),
    decreases eps.len() - k,
{
    if spec_is_bulk_out(eps[k]) {
        assert(spec_is_bulk_out(eps[k]));
    } else {
        lemma_resolve_endpoints_found(interface_number, eps, k + 1);
    }
}

proof fn lemma_resolve_interfaces_found(ifs: Seq<InterfaceDesc>, j: int)
    requires
        0 <= j <= ifs.len(),
        spec_resolve_interfaces(ifs, j) is Some,
    ensures
        exists|y: int, x: int|
            j <= y < ifs.len() && 0 <= x < ifs[y].endpoints@.len()
                && #[trigger] spec_is_bulk_out(ifs[y].endpoints@[x])
                && spec_resolve_interfaces(ifs, j)
                == Some(spec_match_of(ifs[y].interface_number, ifs[y].endpoints@[x])),
    decreases ifs.len() - j,
{
    if spec_resolve_endpoints(ifs[j].interface_number, ifs[j].endpoints@, 0) is Some {
        lemma_resolve_endpoints_found(ifs[j].interface_number, ifs[j].endpoints@, 0);
        let x0 = choose|x: int|
            0 <= x < ifs[j].endpoints@.len() && #[trigger] spec_is_bulk_out(ifs[j].endpoints@[x])
                && spec_resolve_endpoints(ifs[j].interface_number, ifs[j].endpoints@, 0)
                == Some(spec_match_of(ifs[j].interface_number, ifs[j].endpoints@[x]));
        assert(spec_is_bulk_out(ifs[j].endpoints@[x0]));
    } else {
        lemma_resolve_interfaces_found(ifs, j + 1);
    }
}

/// A successful resolution selects a real endpoint of the tree: the result
/// carries the address and maximum packet size of some bulk-OUT endpoint
/// descriptor, together with the number of the interface that owns it.
pub proof fn lemma_resolved_is_bulk_out(cs: Seq<ConfigDesc>)
    requires
        spec_resolve(cs) is Some,
    ensures
        exists|z: int, y: int, x: int|
            0 <= z < cs.len() && 0 <= y < cs[z].interfaces@.len() && 0 <= x
                < cs[z].interfaces@[y].endpoints@.len()
                && #[trigger] spec_is_bulk_out(cs[z].interfaces@[y].endpoints@[x])
                && spec_resolve(cs) == Some(
                spec_match_of(
                    cs[z].interfaces@[y].interface_number,
                    cs[z].interfaces@[y].endpoints@[x],
                ),
            ),
    decreases cs.len(),
{
    lemma_resolve_configs_found(cs, 0);
}

proof fn lemma_resolve_configs_found(cs: Seq<ConfigDesc>, i: int)
    requires
        0 <= i <= cs.len(),
        spec_resolve_configs(cs, i) is Some,
    ensures
        exists|z: int, y: int, x: int|
            i <= z < cs.len() && 0 <= y < cs[z].interfaces@.len() && 0 <= x
                < cs[z].interfaces@[y].endpoints@.len()
                && #[trigger] spec_is_bulk_out(cs[z].interfaces@[y].endpoints@[x])
                && spec_resolve_configs(cs, i) == Some(
                spec_match_of(
                    cs[z].interfaces@[y].interface_number,
                    cs[z].interfaces@[y].endpoints@[x],
                ),
            ),
    decreases cs.len() - i,
{
    if spec_resolve_interfaces(cs[i].interfaces@, 0) is Some {
        lemma_resolve_interfaces_found(cs[i].interfaces@, 0);
        let (y0, x0) = choose|y: int, x: int|
            0 <= y < cs[i].interfaces@.len() && 0 <= x < cs[i].interfaces@[y].endpoints@.len()
                && #[trigger] spec_is_bulk_out(cs[i].interfaces@[y].endpoints@[x])
                && spec_resolve_interfaces(cs[i].interfaces@, 0)
                == Some(
                spec_match_of(
                    cs[i].interfaces@[y].interface_number,
                    cs[i].interfaces@[y].endpoints@[x],
                ),
            );
        assert(spec_is_bulk_out(cs[i].interfaces@[y0].endpoints@[x0]));
    } else {
        lemma_resolve_configs_found(cs, i + 1);
    }
}

/// Endpoint resolution is deterministic: it is a pure function of the
/// descriptor tree, so equal trees always select the same endpoint.
pub proof fn lemma_resolution_deterministic(a: Seq<ConfigDesc>, b: Seq<ConfigDesc>)
    requires
        a == b,
    ensures
        spec_resolve(a) == spec_resolve(b),
{
}

} // verus!
