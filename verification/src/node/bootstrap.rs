//! Startup: what a node is made of, given its configuration.
use vstd::prelude::*;
use vstd::string::*;
use crate::node::config::{configured_id, configured_mode, described, roles_from, roles_named, NodeConfig};
use crate::outside::digest::{all_hex, hex_bytes, hex_decode};
use crate::outside::identity::{ed25519_peer_id, multiaddr_notation, parse_multiaddr, peer_id_of_secret};
use crate::outside::uuid_text::uuid_value;
use crate::p2p::swarm::SwarmConfig;
use crate::sandbox::pool::MAX_POOL_TARGET;
use crate::sandbox::qlean::{ImageTemplate, VmMode};
use crate::text::{cat2, cat3, cat5, lines, lines_of, str_eq, trim_text, trimmed};
use crate::types::{texts, CapabilitiesView, DescriptorView, NodeDescriptor, NodeId, OsType, Timestamp};

verus! {

/// Why a node does not start.
#[derive(Debug, PartialEq, Eq)]
pub enum BootError {
    /// The identity seed is not hexadecimal.
    SeedNotHex,
    /// The identity seed is no secret key.
    BadSeed(String),
    /// A listen address is malformed.
    ListenAddress(String),
}

/// The message of a startup error.
pub open spec fn boot_message(e: BootError) -> Seq<char> {
    match e {
        BootError::SeedNotHex => "identity_seed must be hex-encoded"@,
        BootError::BadSeed(cause) => "bad identity_seed: "@ + cause@,
        BootError::ListenAddress(_) => "Failed to parse listen addresses"@,
    }
}

impl BootError {
    /// The message of this error.
    pub fn to_string(&self) -> (r: String)
        ensures
            r@ == boot_message(*self),
    {
        match self {
            BootError::SeedNotHex => String::from_str("identity_seed must be hex-encoded"),
            BootError::BadSeed(cause) => cat2("bad identity_seed: ", cause.as_str()),
            BootError::ListenAddress(_) => String::from_str("Failed to parse listen addresses"),
        }
    }
}

/// The network identity of a node: a secret and the peer id that belongs to it.
#[derive(Debug, PartialEq, Eq)]
pub struct Identity {
    /// The secret key.
    pub secret: Vec<u8>,
    /// The peer id.
    pub peer_id: String,
}

/// What a configured seed leads to: no seed means a fresh identity.
pub open spec fn identified(
    seed: Option<String>,
    r: std::result::Result<Option<Identity>, BootError>,
) -> bool {
    match seed {
        None => r is Ok && r->Ok_0 is None,
        Some(text) => if text@.len() % 2 != 0 || !all_hex(text@) {
            r == Err::<Option<Identity>, BootError>(BootError::SeedNotHex)
        } else if text@.len() != 64 {
            r is Err && r->Err_0 is BadSeed && ed25519_peer_id(hex_bytes(text@)) is Err
                && r->Err_0->BadSeed_0@ == ed25519_peer_id(hex_bytes(text@))->Err_0
        } else {
            r is Ok && r->Ok_0 is Some && r->Ok_0->Some_0.secret@ == hex_bytes(text@)
                && ed25519_peer_id(hex_bytes(text@)) is Ok && r->Ok_0->Some_0.peer_id@
                == ed25519_peer_id(hex_bytes(text@))->Ok_0
        },
    }
}

/// The identity that a configured seed fixes; none means that a fresh one is made.
pub fn identity(seed: &Option<String>) -> (r: std::result::Result<Option<Identity>, BootError>)
    ensures
        identified(*seed, r),
{
    match seed {
        None => Ok(None),
        Some(text) => match hex_decode(text.as_str()) {
            None => Err(BootError::SeedNotHex),
            Some(secret) => match peer_id_of_secret(&secret) {
                Ok(peer_id) => Ok(Some(Identity { secret, peer_id })),
                Err(e) => Err(BootError::BadSeed(e)),
            },
        },
    }
}

/// The notations of addresses that are well-formed, in order.
pub open spec fn well_formed(v: Seq<Seq<char>>) -> Seq<Seq<char>>
    decreases v.len(),
{
    if v.len() == 0 {
        Seq::empty()
    } else {
        match multiaddr_notation(v.last()) {
            Ok(a) => well_formed(v.drop_last()).push(a),
            Err(_) => well_formed(v.drop_last()),
        }
    }
}

/// Whether every address is well-formed.
pub open spec fn all_well_formed(v: Seq<Seq<char>>) -> bool {
    forall|i: int| 0 <= i < v.len() ==> multiaddr_notation(#[trigger] v[i]) is Ok
}

/// The first malformed address.
pub open spec fn first_malformed(v: Seq<Seq<char>>, i: int) -> bool {
    &&& 0 <= i < v.len()
    &&& multiaddr_notation(v[i]) is Err
    &&& forall|k: int| 0 <= k < i ==> multiaddr_notation(#[trigger] v[k]) is Ok
}

fn parse_all(v: &Vec<String>) -> (r: std::result::Result<Vec<String>, String>)
    ensures
        match r {
            Ok(out) => all_well_formed(texts(v@)) && texts(out@) == well_formed(texts(v@)),
            Err(e) => exists|i: int|
                #[trigger] first_malformed(texts(v@), i) && e@ == multiaddr_notation(
                    texts(v@)[i],
                )->Err_0,
        },
{
    let ghost all = texts(v@);
    let mut out: Vec<String> = Vec::new();
    let mut i: usize = 0;
    assert(all.take(0) =~= Seq::<Seq<char>>::empty());
    assert(texts(out@) =~= Seq::<Seq<char>>::empty());
    while i < v.len()
        invariant
            i <= v@.len(),
            all == texts(v@),
            texts(out@) == well_formed(all.take(i as int)),
            forall|k: int| 0 <= k < i ==> multiaddr_notation(#[trigger] all[k]) is Ok,
        decreases v@.len() - i,
    {
        assert(all.take(i + 1).drop_last() =~= all.take(i as int));
        assert(all.take(i + 1).last() == v@[i as int]@);
        match parse_multiaddr(v[i].as_str()) {
            Ok(a) => {
                let ghost before = out@;
                out.push(a);
                assert(texts(out@) =~= texts(before).push(a@));
            },
            Err(e) => {
                assert(first_malformed(all, i as int));
                return Err(e);
            },
        }
        i += 1;
    }
    assert(all.take(i as int) =~= all);
    Ok(out)
}

fn parse_some(v: &Vec<String>) -> (r: Vec<String>)
    ensures
        texts(r@) == well_formed(texts(v@)),
{
    let ghost all = texts(v@);
    let mut out: Vec<String> = Vec::new();
    let mut i: usize = 0;
    assert(all.take(0) =~= Seq::<Seq<char>>::empty());
    assert(texts(out@) =~= Seq::<Seq<char>>::empty());
    while i < v.len()
        invariant
            i <= v@.len(),
            all == texts(v@),
            texts(out@) == well_formed(all.take(i as int)),
        decreases v@.len() - i,
    {
        assert(all.take(i + 1).drop_last() =~= all.take(i as int));
        assert(all.take(i + 1).last() == v@[i as int]@);
        match parse_multiaddr(v[i].as_str()) {
            Ok(a) => {
                let ghost before = out@;
                out.push(a);
                assert(texts(out@) =~= texts(before).push(a@));
            },
            Err(_) => {},
        }
        i += 1;
    }
    assert(all.take(i as int) =~= all);
    out
}

/// Where to listen and whom to dial. Every listen address has to be well-formed; a
/// malformed peer address is left out.
pub fn network(config: &NodeConfig) -> (r: std::result::Result<SwarmConfig, BootError>)
    ensures
        match r {
            Ok(n) => all_well_formed(texts(config.listen_addresses@)) && texts(
                n.listen_addresses@,
            ) == well_formed(texts(config.listen_addresses@)) && texts(n.bootstrap_peers@)
                == well_formed(texts(config.bootstrap_peers@)),
            Err(e) => e is ListenAddress && exists|i: int|
                #[trigger] first_malformed(texts(config.listen_addresses@), i)
                    && e->ListenAddress_0@ == multiaddr_notation(
                    texts(config.listen_addresses@)[i],
                )->Err_0,
        },
{
    match parse_all(&config.listen_addresses) {
        Err(e) => Err(BootError::ListenAddress(e)),
        Ok(listen_addresses) => Ok(
            SwarmConfig { listen_addresses, bootstrap_peers: parse_some(&config.bootstrap_peers) },
        ),
    }
}

/// The sandbox policy of a node.
#[derive(Debug, PartialEq, Eq)]
pub struct SandboxPolicy {
    /// Whether project sandboxes are wanted.
    pub enabled: bool,
    /// What happens to a machine between tasks.
    pub vm_mode: VmMode,
    /// How many machines to boot ahead.
    pub pool_size: usize,
    /// The custom base image.
    pub template: Option<ImageTemplate>,
}

/// Whether a policy is the one that a configuration leads to.
pub open spec fn is_policy_of(config: NodeConfig, policy: SandboxPolicy) -> bool {
    &&& policy.enabled == config.capabilities.project_sandbox
    &&& policy.vm_mode == configured_mode(config.capabilities.project_vm_mode@)
    &&& policy.pool_size == (if config.capabilities.project_vm_pool_size > MAX_POOL_TARGET {
        MAX_POOL_TARGET
    } else {
        config.capabilities.project_vm_pool_size
    })
    &&& match (config.capabilities.project_image_source, config.capabilities.project_image_digest) {
        (Some(s), Some(d)) => policy.template is Some && policy.template->Some_0.source@ == s@
            && policy.template->Some_0.digest@ == d@,
        _ => policy.template is None,
    }
}

/// The sandbox policy that a configuration leads to. A custom image that is not
/// completely configured is left out.
pub fn sandbox_policy(config: &NodeConfig) -> (r: SandboxPolicy)
    ensures
        is_policy_of(*config, r),
{
    let (enabled, vm_mode) = config.project_sandbox_policy();
    let template = match config.project_image_template() {
        Ok(t) => t,
        Err(_) => None,
    };
    SandboxPolicy { enabled, vm_mode, pool_size: config.project_vm_pool_size(), template }
}

/// The loaded configuration with the node id of the command line, if one is given.
pub fn with_node_id(config: NodeConfig, node_id: Option<&str>) -> (r: NodeConfig)
    ensures
        match node_id {
            Some(id) => r.node_id@ == id@ && r == (NodeConfig { node_id: r.node_id, ..config }),
            None => r == config,
        },
{
    let mut config = config;
    match node_id {
        Some(id) => {
            config.node_id = String::from_str(id);
        },
        None => {},
    }
    config
}

/// The loaded configuration with the listen address of the command line, if one is
/// given, in place of the configured ones.
pub fn with_listen_address(config: NodeConfig, listen_address: Option<&str>) -> (r: NodeConfig)
    ensures
        match listen_address {
            Some(address) => texts(r.listen_addresses@) == seq![address@] && r == (NodeConfig {
                listen_addresses: r.listen_addresses,
                ..config
            }),
            None => r == config,
        },
{
    let mut config = config;
    match listen_address {
        Some(address) => {
            let mut addresses: Vec<String> = Vec::new();
            addresses.push(String::from_str(address));
            assert(texts(addresses@) =~= seq![address@]);
            config.listen_addresses = addresses;
        },
        None => {},
    }
    config
}

/// A valid configuration that names its node gives the node that very id, never a
/// fresh one.
pub proof fn configured_id_is_kept(config: NodeConfig, fresh: NodeId)
    requires
        crate::node::config::validated(config, Ok(())),
        config.node_id@.len() > 0,
    ensures
        uuid_value(config.node_id@) is Some,
        configured_id(config.node_id@, fresh) == uuid_value(config.node_id@)->Some_0 as u128,
{
}

/// The descriptor of a node that can, or cannot, execute projects.
pub open spec fn advertised_view(d: DescriptorView, has_executor: bool) -> DescriptorView {
    DescriptorView {
        capabilities: CapabilitiesView {
            project_sandbox: d.capabilities.project_sandbox && has_executor,
            ..d.capabilities
        },
        ..d
    }
}

/// The descriptor that a node advertises: without an executor it claims no project
/// sandbox, so that no project is routed to it.
pub fn advertised(descriptor: NodeDescriptor, has_executor: bool) -> (r: NodeDescriptor)
    ensures
        r@ == advertised_view(descriptor@, has_executor),
{
    let mut descriptor = descriptor;
    if !has_executor && descriptor.capabilities.project_sandbox {
        descriptor.capabilities.project_sandbox = false;
    }
    descriptor
}

/// A node claims a project sandbox only if it can run projects, whatever its
/// configuration says.
pub proof fn only_executors_claim_a_sandbox(d: DescriptorView, has_executor: bool)
    ensures
        advertised_view(d, has_executor).capabilities.project_sandbox ==> has_executor
            && d.capabilities.project_sandbox,
{
}

/// A node's part in consensus.
#[derive(Debug, PartialEq, Eq)]
pub enum Membership {
    /// None: it stores objects and serves local clients.
    LightClient,
    /// It votes, and registers itself with its roles.
    Voter { raft_id: u64, peers: Vec<u64>, registration: NodeDescriptor },
}

/// A copy of a list of participant ids.
fn clone_ids(v: &Vec<u64>) -> (r: Vec<u64>)
    ensures
        r@ == v@,
{
    let mut out: Vec<u64> = Vec::new();
    out.extend_from_slice(v.as_slice());
    assert(out@ =~= v@);
    out
}

/// Whether this is a node's part in consensus.
pub open spec fn takes_part(config: NodeConfig, descriptor: DescriptorView, m: Membership) -> bool {
    match m {
        Membership::LightClient => config.raft_id is None || config.raft_id == Some(0u64),
        Membership::Voter { raft_id, peers, registration } => {
            &&& config.raft_id == Some(raft_id)
            &&& raft_id != 0
            &&& peers@ == config.raft_peers@
            &&& registration@ == (DescriptorView {
                current_assigned_roles: roles_named(texts(config.roles@)),
                ..descriptor
            })
        },
    }
}

/// A node's part in consensus: a node without a participant id, or with the id
/// zero, is a light client.
pub fn membership(config: &NodeConfig, descriptor: &NodeDescriptor) -> (r: Membership)
    ensures
        match config.raft_id {
            Some(id) if id != 0 => {
                &&& r is Voter
                &&& r->Voter_raft_id == id
                &&& r->Voter_peers@ == config.raft_peers@
                &&& r->Voter_registration@ == (DescriptorView {
                    current_assigned_roles: roles_named(texts(config.roles@)),
                    ..descriptor@
                })
            },
            _ => r is LightClient,
        },
        takes_part(*config, descriptor@, r),
{
    let raft_id: u64 = match config.raft_id {
        Some(id) => id,
        None => 0,
    };
    if raft_id == 0 {
        return Membership::LightClient;
    }
    let mut registration = descriptor.clone();
    registration.current_assigned_roles = roles_from(&config.roles);
    Membership::Voter { raft_id, peers: clone_ids(&config.raft_peers), registration }
}

/// What a node starts with.
#[derive(Debug, PartialEq, Eq)]
pub struct BootPlan {
    /// Its network identity; none means that a fresh one is made.
    pub identity: Option<Identity>,
    /// Its descriptor, before it is known whether it can execute projects.
    pub descriptor: NodeDescriptor,
    /// Its sandbox policy.
    pub policy: SandboxPolicy,
    /// Whether the host is checked for what sandboxes need.
    pub preflight: bool,
    /// Where to listen and whom to dial.
    pub network: SwarmConfig,
}

/// What a node starts with, given its configuration, a fresh identifier, the
/// operating system and the time. A bad seed comes before a bad address.
pub fn boot_plan(config: &NodeConfig, fresh: NodeId, os: OsType, now: Timestamp) -> (r: std::result::Result<
    BootPlan,
    BootError,
>)
    ensures
        match r {
            Ok(plan) => {
                &&& identified(config.identity_seed, Ok(plan.identity))
                &&& plan.descriptor@ == described(*config, fresh, os, now)
                &&& is_policy_of(*config, plan.policy)
                &&& plan.preflight == config.capabilities.project_sandbox
                &&& all_well_formed(texts(config.listen_addresses@))
                &&& texts(plan.network.listen_addresses@) == well_formed(
                    texts(config.listen_addresses@),
                )
                &&& texts(plan.network.bootstrap_peers@) == well_formed(
                    texts(config.bootstrap_peers@),
                )
            },
            Err(e) => if seed_ok(config.identity_seed) {
                e is ListenAddress && exists|i: int|
                    #[trigger] first_malformed(texts(config.listen_addresses@), i)
                        && e->ListenAddress_0@ == multiaddr_notation(
                        texts(config.listen_addresses@)[i],
                    )->Err_0
            } else {
                identified(config.identity_seed, Err(e))
            },
        },
        r is Ok == (all_well_formed(texts(config.listen_addresses@)) && seed_ok(
            config.identity_seed,
        )),
{
    let identity = match identity(&config.identity_seed) {
        Ok(i) => i,
        Err(e) => {
            return Err(e);
        },
    };
    let descriptor = config.to_descriptor(fresh, os, now);
    let policy = sandbox_policy(config);
    let preflight = descriptor.capabilities.project_sandbox;
    match network(config) {
        Ok(network) => Ok(BootPlan { identity, descriptor, policy, preflight, network }),
        Err(e) => Err(e),
    }
}

/// Whether a seed can be used: there is none, or it spells a secret of 32 bytes.
pub open spec fn seed_ok(seed: Option<String>) -> bool {
    match seed {
        None => true,
        Some(text) => text@.len() == 64 && all_hex(text@),
    }
}

/// What a host was found to be like, before any machine is booted.
#[derive(Debug, PartialEq, Eq)]
pub struct HostFacts {
    /// Whether the KVM device is there.
    pub kvm_present: bool,
    /// Whether it can be read and written.
    pub kvm_usable: bool,
    /// The user that runs the node.
    pub user: Option<String>,
    /// The configured bridge.
    pub bridge: Option<String>,
    /// Whether the bridge is there.
    pub bridge_present: bool,
    /// Whether the bridge helper is there.
    pub helper_present: bool,
    /// The bridge helper's configuration.
    pub bridge_conf: Option<String>,
    /// Whether the package mirror can be reached.
    pub mirror_reachable: bool,
    /// The script that examines and mends the host's network.
    pub network_script: String,
}

/// The bridge that is used.
pub open spec fn bridge_name(bridge: Option<String>) -> Seq<char> {
    match bridge {
        Some(b) => b@,
        None => "qlbr0"@,
    }
}

/// Whether a configuration allows a bridge: one of its lines says so.
pub open spec fn allows_bridge(conf: Seq<char>, bridge: Seq<char>) -> bool {
    exists|i: int|
        0 <= i < lines(conf).len() && trimmed(#[trigger] lines(conf)[i]) == "allow "@ + bridge
}

/// What is wrong with a host, in the order in which it is reported.
pub open spec fn host_warnings(f: HostFacts) -> Seq<Seq<char>> {
    let bridge = bridge_name(f.bridge);
    let kvm = if !f.kvm_present {
        seq![
            "preflight: /dev/kvm missing — the sandbox cannot boot a VM (enable virtualization / nested KVM)"@,
        ]
    } else if !f.kvm_usable {
        seq![
            "preflight: no rw access to /dev/kvm — run: sudo usermod -aG kvm $USER && re-login (current groups: "@
                + (match f.user {
                Some(u) => u@,
                None => "?"@,
            }) + ")"@,
        ]
    } else {
        Seq::empty()
    };
    let net = if f.bridge_present {
        Seq::empty()
    } else {
        seq![
            "preflight: bridge "@ + bridge
                + " missing — the guest will boot WITHOUT a NIC and every apt command will silently do nothing. Fix: sudo "@
                + f.network_script@ + " --fix"@,
        ]
    };
    let helper = if f.helper_present {
        Seq::empty()
    } else {
        seq!["preflight: qemu-bridge-helper not found — install qemu-system-common"@]
    };
    let conf = match f.bridge_conf {
        Some(c) => if allows_bridge(c@, bridge) {
            Seq::empty()
        } else {
            seq!["preflight: /etc/qemu/bridge.conf has no 'allow "@ + bridge + "' line"@]
        },
        None => seq!["preflight: /etc/qemu/bridge.conf missing (add 'allow "@ + bridge + "')"@],
    };
    let mirror = if f.mirror_reachable {
        Seq::empty()
    } else {
        seq![
            "preflight: cannot reach deb.debian.org from this host — project toolchain installs will fail; run "@
                + f.network_script@ + " for details"@,
        ]
    };
    kvm + net + helper + conf + mirror
}

fn conf_allows(conf: &str, bridge: &str) -> (r: bool)
    ensures
        r == allows_bridge(conf@, bridge@),
{
    let wanted = cat2("allow ", bridge);
    let all = lines_of(conf);
    let mut i: usize = 0;
    while i < all.len()
        invariant
            i <= all@.len(),
            texts(all@) == lines(conf@),
            wanted@ == "allow "@ + bridge@,
            forall|k: int| 0 <= k < i ==> trimmed(#[trigger] lines(conf@)[k]) != wanted@,
        decreases all@.len() - i,
    {
        assert(lines(conf@)[i as int] == all@[i as int]@);
        let line = trim_text(all[i].as_str());
        if str_eq(line.as_str(), wanted.as_str()) {
            return true;
        }
        i += 1;
    }
    assert(lines(conf@).len() == all@.len());
    false
}

/// What is wrong with a host that should run project sandboxes. Every cause is
/// silent later: a guest without a network answers every installation with
/// success.
pub fn sandbox_preflight(facts: &HostFacts) -> (r: Vec<String>)
    ensures
        texts(r@) == host_warnings(*facts),
{
    let mut out: Vec<String> = Vec::new();
    if !facts.kvm_present {
        out.push(
            String::from_str(
                "preflight: /dev/kvm missing — the sandbox cannot boot a VM (enable virtualization / nested KVM)",
            ),
        );
    } else if !facts.kvm_usable {
        let user = match &facts.user {
            Some(u) => u.as_str(),
            None => "?",
        };
        out.push(
            cat3(
                "preflight: no rw access to /dev/kvm — run: sudo usermod -aG kvm $USER && re-login (current groups: ",
                user,
                ")",
            ),
        );
    }
    let bridge = match &facts.bridge {
        Some(b) => b.as_str(),
        None => "qlbr0",
    };
    if !facts.bridge_present {
        out.push(
            cat5(
                "preflight: bridge ",
                bridge,
                " missing — the guest will boot WITHOUT a NIC and every apt command will silently do nothing. Fix: sudo ",
                facts.network_script.as_str(),
                " --fix",
            ),
        );
    }
    if !facts.helper_present {
        out.push(
            String::from_str(
                "preflight: qemu-bridge-helper not found — install qemu-system-common",
            ),
        );
    }
    match &facts.bridge_conf {
        Some(c) => {
            if !conf_allows(c.as_str(), bridge) {
                out.push(
                    cat3("preflight: /etc/qemu/bridge.conf has no 'allow ", bridge, "' line"),
                );
            }
        },
        None => {
            out.push(
                cat3("preflight: /etc/qemu/bridge.conf missing (add 'allow ", bridge, "')"),
            );
        },
    }
    if !facts.mirror_reachable {
        out.push(
            cat3(
                "preflight: cannot reach deb.debian.org from this host — project toolchain installs will fail; run ",
                facts.network_script.as_str(),
                " for details",
            ),
        );
    }
    assert(texts(out@) =~= host_warnings(*facts));
    out
}

/// Every well-formed address is used, in its notation, and no other.
pub proof fn used_addresses_are_the_well_formed_ones(v: Seq<Seq<char>>, a: Seq<char>)
    ensures
        well_formed(v).contains(a) <==> exists|i: int|
            0 <= i < v.len() && multiaddr_notation(#[trigger] v[i]) == Ok::<Seq<char>, Seq<char>>(
                a,
            ),
        all_well_formed(v) ==> well_formed(v).len() == v.len(),
    decreases v.len(),
{
    if v.len() > 0 {
        let front = v.drop_last();
        let before = well_formed(front);
        let all = well_formed(v);
        used_addresses_are_the_well_formed_ones(front, a);
        assert(v[v.len() - 1] == v.last());
        if all_well_formed(v) {
            assert forall|i: int| 0 <= i < front.len() implies multiaddr_notation(
                #[trigger] front[i],
            ) is Ok by {
                assert(front[i] == v[i]);
            }
        }
        if before.contains(a) {
            let i = choose|i: int| 0 <= i < before.len() && before[i] == a;
            assert(all[i] == a);
            let k = choose|k: int|
                0 <= k < front.len() && multiaddr_notation(#[trigger] front[k]) == Ok::<
                    Seq<char>,
                    Seq<char>,
                >(a);
            assert(v[k] == front[k]);
        }
        if multiaddr_notation(v.last()) is Ok {
            assert(all[before.len() as int] == multiaddr_notation(v.last())->Ok_0);
        }
        if all.contains(a) && !before.contains(a) {
            let i = choose|i: int| 0 <= i < all.len() && all[i] == a;
            if i < before.len() {
                assert(before[i] == a);
            }
        }
        if exists|i: int|
            0 <= i < v.len() && multiaddr_notation(#[trigger] v[i]) == Ok::<Seq<char>, Seq<char>>(
                a,
            ) {
            let k = choose|k: int|
                0 <= k < v.len() && multiaddr_notation(#[trigger] v[k]) == Ok::<
                    Seq<char>,
                    Seq<char>,
                >(a);
            if k < front.len() {
                assert(front[k] == v[k]);
            }
        }
    }
}

/// A seed fixes the identity: it is accepted only where it spells 32 bytes, and these
/// are the secret whose peer id the node has. Without a seed nothing is fixed.
pub proof fn seed_fixes_the_identity(
    seed: Option<String>,
    r: std::result::Result<Option<Identity>, BootError>,
)
    requires
        identified(seed, r),
    ensures
        seed is None ==> r == Ok::<Option<Identity>, BootError>(None),
        seed_ok(seed) <==> r is Ok,
        seed matches Some(text) ==> (r is Ok <==> text@.len() == 64 && all_hex(text@)),
        seed is Some && r is Ok ==> r->Ok_0 is Some && r->Ok_0->Some_0.secret@ == hex_bytes(
            seed->Some_0@,
        ) && ed25519_peer_id(r->Ok_0->Some_0.secret@) == Ok::<Seq<char>, Seq<char>>(
            r->Ok_0->Some_0.peer_id@,
        ),
{
}

/// The sandbox policy never pools more machines than is allowed, never more than is
/// configured, and uses a custom image only where source and digest are both given.
pub proof fn policy_stays_within_the_configuration(config: NodeConfig, policy: SandboxPolicy)
    requires
        is_policy_of(config, policy),
    ensures
        policy.enabled == config.capabilities.project_sandbox,
        policy.pool_size <= 8,
        policy.pool_size <= config.capabilities.project_vm_pool_size,
        config.capabilities.project_vm_pool_size <= 8 ==> policy.pool_size
            == config.capabilities.project_vm_pool_size,
        policy.template is Some <==> config.capabilities.project_image_source is Some
            && config.capabilities.project_image_digest is Some,
        policy.template is Some ==> policy.template->Some_0.source@
            == config.capabilities.project_image_source->Some_0@
            && policy.template->Some_0.digest@
            == config.capabilities.project_image_digest->Some_0@,
{
}

/// Whether a node can run projects changes nothing else that it says of itself.
pub proof fn advertising_changes_only_the_sandbox(d: DescriptorView, has_executor: bool)
    ensures
        has_executor ==> advertised_view(d, has_executor) == d,
        advertised_view(d, has_executor).node_id == d.node_id,
        advertised_view(d, has_executor).node_type == d.node_type,
        advertised_view(d, has_executor).os == d.os,
        advertised_view(d, has_executor).current_assigned_roles == d.current_assigned_roles,
        advertised_view(d, has_executor).raft_id == d.raft_id,
        advertised_view(d, has_executor).capabilities.storage == d.capabilities.storage,
        advertised_view(d, has_executor).capabilities.runtimes == d.capabilities.runtimes,
        advertised_view(d, has_executor).capabilities.max_memory_mb
            == d.capabilities.max_memory_mb,
        advertised_view(d, has_executor).capabilities.cpu_cores == d.capabilities.cpu_cores,
{
}

/// A host is warned about exactly where something is wrong with it: once for each of
/// the things that a sandbox needs and that is not as it should be.
pub proof fn every_fault_of_a_host_is_reported(f: HostFacts)
    ensures
        ({
            let kvm: int = if f.kvm_present && f.kvm_usable {
                0
            } else {
                1
            };
            let net: int = if f.bridge_present {
                0
            } else {
                1
            };
            let helper: int = if f.helper_present {
                0
            } else {
                1
            };
            let conf: int = if f.bridge_conf is Some && allows_bridge(
                f.bridge_conf->Some_0@,
                bridge_name(f.bridge),
            ) {
                0
            } else {
                1
            };
            let mirror: int = if f.mirror_reachable {
                0
            } else {
                1
            };
            host_warnings(f).len() == kvm + net + helper + conf + mirror
        }),
{
}

/// A node votes exactly where it has a participant id other than zero, under that id,
/// and registers itself as the node it is.
pub proof fn only_participants_vote(config: NodeConfig, descriptor: DescriptorView, m: Membership)
    requires
        takes_part(config, descriptor, m),
    ensures
        m is Voter <==> config.raft_id is Some && config.raft_id->Some_0 > 0,
        m is Voter ==> m->Voter_raft_id == config.raft_id->Some_0,
        m is Voter ==> m->Voter_peers@ == config.raft_peers@,
        m is Voter ==> m->Voter_registration.node_id == descriptor.node_id
            && m->Voter_registration@.capabilities == descriptor.capabilities,
{
}

/// The address that is reported is malformed, and none before it is.
pub proof fn reported_address_is_malformed(v: Seq<Seq<char>>, i: int, k: int)
    requires
        first_malformed(v, i),
    ensures
        0 <= i < v.len(),
        multiaddr_notation(v[i]) is Err,
        0 <= k < i ==> multiaddr_notation(v[k]) is Ok,
        !all_well_formed(v),
{
}

} // verus!
