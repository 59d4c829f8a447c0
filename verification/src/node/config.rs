//! Node configuration: defaults, validation, and the descriptor it leads to.
use vstd::prelude::*;
use vstd::string::*;
use crate::error::{error_message, ErrorView};
use crate::outside::identity::{multiaddr_notation, parse_multiaddr};
use crate::outside::uuid_text::{parse_uuid, uuid_error_text, uuid_value};
use crate::sandbox::pool::MAX_POOL_TARGET;
use crate::sandbox::qlean::{mode_named, ImageTemplate, VmMode};
use crate::text::{ascii_lower, cat2, cat3, str_eq, trimmed};
use crate::types::{clone_texts, role_name, texts};
use crate::types::{Capabilities, CapabilitiesView, DescriptorView, NodeDescriptor, NodeId, NodeType, OsType, Role, Timestamp};

verus! {

/// Configuration of a node.
#[derive(Debug, PartialEq, Eq)]
pub struct NodeConfig {
    /// Unique node identifier; a fresh one is used where it is empty.
    pub node_id: String,
    /// "Heavy" or "Light".
    pub node_type: String,
    /// Addresses to listen on.
    pub listen_addresses: Vec<String>,
    /// Peers to dial.
    pub bootstrap_peers: Vec<String>,
    /// What the node can do.
    pub capabilities: CapabilitiesConfig,
    /// Roles to request on startup.
    pub roles: Vec<String>,
    /// Consensus participant id; none for a light client.
    pub raft_id: Option<u64>,
    /// The participants that vote from the start.
    pub raft_peers: Vec<u64>,
    /// Hexadecimal seed of a stable network identity.
    pub identity_seed: Option<String>,
}

/// Configuration of a node's capabilities.
#[derive(Debug, PartialEq, Eq)]
pub struct CapabilitiesConfig {
    /// Whether persistent storage is available.
    pub storage: bool,
    /// Whether GPU acceleration is available.
    pub gpu_acceleration: bool,
    /// Free-form runtime names.
    pub runtimes: Vec<String>,
    /// Memory for sandboxes, in megabytes.
    pub max_memory_mb: u64,
    /// CPU cores for sandboxes.
    pub cpu_cores: u32,
    /// Whether the node runs project sandboxes.
    pub project_sandbox: bool,
    /// What happens to a machine between tasks.
    pub project_vm_mode: String,
    /// How many machines to boot ahead in fresh mode.
    pub project_vm_pool_size: usize,
    /// Custom base image.
    pub project_image_source: Option<String>,
    /// Digest of the custom base image.
    pub project_image_digest: Option<String>,
}

/// The node type where none is configured.
pub fn default_node_type() -> (r: String)
    ensures
        r@ == "Heavy"@,
{
    String::from_str("Heavy")
}

/// The listen addresses where none are configured.
pub fn default_listen_addresses() -> (r: Vec<String>)
    ensures
        texts(r@) == seq!["/ip4/0.0.0.0/tcp/0"@],
{
    let mut v: Vec<String> = Vec::new();
    v.push(String::from_str("/ip4/0.0.0.0/tcp/0"));
    assert(texts(v@) =~= seq!["/ip4/0.0.0.0/tcp/0"@]);
    v
}

/// The runtimes where none are configured.
pub fn default_runtimes() -> (r: Vec<String>)
    ensures
        texts(r@) == seq!["qlean"@],
{
    let mut v: Vec<String> = Vec::new();
    v.push(String::from_str("qlean"));
    assert(texts(v@) =~= seq!["qlean"@]);
    v
}

/// The memory where none is configured.
pub fn default_max_memory_mb() -> (r: u64)
    ensures
        r == 16384,
{
    16384
}

/// The cores where none are configured.
pub fn default_cpu_cores() -> (r: u32)
    ensures
        r == 4,
{
    4
}

/// The machine mode where none is configured.
pub fn default_project_vm_mode() -> (r: String)
    ensures
        r@ == "reuse"@,
{
    String::from_str("reuse")
}

/// The pool size where none is configured.
pub fn default_project_vm_pool() -> (r: usize)
    ensures
        r == 1,
{
    1
}

impl Default for CapabilitiesConfig {
    fn default() -> (r: Self)
        ensures
            r.storage,
            !r.gpu_acceleration,
            texts(r.runtimes@) == seq!["qlean"@],
            r.max_memory_mb == 16384,
            r.cpu_cores == 4,
            !r.project_sandbox,
            r.project_vm_mode@ == "reuse"@,
            r.project_vm_pool_size == 1,
            r.project_image_source is None,
            r.project_image_digest is None,
    {
        CapabilitiesConfig {
            storage: true,
            gpu_acceleration: false,
            runtimes: default_runtimes(),
            max_memory_mb: default_max_memory_mb(),
            cpu_cores: default_cpu_cores(),
            project_sandbox: false,
            project_vm_mode: default_project_vm_mode(),
            project_vm_pool_size: default_project_vm_pool(),
            project_image_source: None,
            project_image_digest: None,
        }
    }
}

/// Why a configuration cannot be used.
#[derive(Debug, PartialEq, Eq)]
pub enum ConfigError {
    /// The file could not be read.
    Unread { path: String, cause: String },
    /// The file could not be parsed.
    Unparsed { path: String, cause: String },
    /// The node id is no UUID.
    NodeId { id: String, cause: String },
    /// The node type is unknown.
    NodeKind { got: String },
    /// A listen address is malformed.
    ListenAddress { address: String, cause: String },
}

/// The message of a configuration error.
pub open spec fn config_message(e: ConfigError) -> Seq<char> {
    match e {
        ConfigError::Unread { path, .. } => "Failed to read config file: "@ + path@,
        ConfigError::Unparsed { path, .. } => "Failed to parse config file: "@ + path@,
        ConfigError::NodeId { id, .. } => "Invalid node_id UUID: "@ + id@,
        ConfigError::NodeKind { got } => "node_type must be 'Heavy' or 'Light', got '"@ + got@
            + "'"@,
        ConfigError::ListenAddress { address, .. } => "Invalid listen address: "@ + address@,
    }
}

impl ConfigError {
    /// The message of this error.
    pub fn to_string(&self) -> (r: String)
        ensures
            r@ == config_message(*self),
    {
        match self {
            ConfigError::Unread { path, .. } => cat2("Failed to read config file: ", path.as_str()),
            ConfigError::Unparsed { path, .. } => cat2(
                "Failed to parse config file: ",
                path.as_str(),
            ),
            ConfigError::NodeId { id, .. } => cat2("Invalid node_id UUID: ", id.as_str()),
            ConfigError::NodeKind { got } => cat3(
                "node_type must be 'Heavy' or 'Light', got '",
                got.as_str(),
                "'",
            ),
            ConfigError::ListenAddress { address, .. } => cat2(
                "Invalid listen address: ",
                address.as_str(),
            ),
        }
    }
}

/// The role that a text names, if it names one.
pub open spec fn role_named(text: Seq<char>) -> Option<Role> {
    if text == role_name(Role::Storage) {
        Some(Role::Storage)
    } else if text == role_name(Role::Execution) {
        Some(Role::Execution)
    } else if text == role_name(Role::Inference) {
        Some(Role::Inference)
    } else if text == role_name(Role::Coordinator) {
        Some(Role::Coordinator)
    } else if text == role_name(Role::Bootstrap) {
        Some(Role::Bootstrap)
    } else {
        None
    }
}

/// The role that a text names, if it names one.
pub fn role_of(text: &str) -> (r: Option<Role>)
    ensures
        r == role_named(text@),
{
    if str_eq(text, "Storage") {
        Some(Role::Storage)
    } else if str_eq(text, "Execution") {
        Some(Role::Execution)
    } else if str_eq(text, "Inference") {
        Some(Role::Inference)
    } else if str_eq(text, "Coordinator") {
        Some(Role::Coordinator)
    } else if str_eq(text, "Bootstrap") {
        Some(Role::Bootstrap)
    } else {
        None
    }
}

/// The roles that texts name, in order; a text that names none is left out.
pub open spec fn roles_named(v: Seq<Seq<char>>) -> Seq<Role>
    decreases v.len(),
{
    if v.len() == 0 {
        Seq::empty()
    } else {
        match role_named(v.last()) {
            Some(role) => roles_named(v.drop_last()).push(role),
            None => roles_named(v.drop_last()),
        }
    }
}

/// The roles that texts name, in order.
pub fn roles_from(v: &Vec<String>) -> (r: Vec<Role>)
    ensures
        r@ == roles_named(texts(v@)),
{
    let mut out: Vec<Role> = Vec::new();
    let mut i: usize = 0;
    assert(texts(v@).take(0) =~= Seq::<Seq<char>>::empty());
    while i < v.len()
        invariant
            i <= v@.len(),
            out@ == roles_named(texts(v@).take(i as int)),
        decreases v@.len() - i,
    {
        assert(texts(v@).take(i + 1).drop_last() =~= texts(v@).take(i as int));
        assert(texts(v@).take(i + 1).last() == v@[i as int]@);
        match role_of(v[i].as_str()) {
            Some(role) => out.push(role),
            None => {},
        }
        i += 1;
    }
    assert(texts(v@).take(i as int) =~= texts(v@));
    out
}

/// The first listen address that is no multiaddress.
pub open spec fn first_bad_address(v: Seq<Seq<char>>) -> Option<int>
    decreases v.len(),
{
    if v.len() == 0 {
        None
    } else {
        match first_bad_address(v.drop_last()) {
            Some(i) => Some(i),
            None => if multiaddr_notation(v.last()) is Err {
                Some(v.len() - 1)
            } else {
                None
            },
        }
    }
}

/// What validation says of a configuration.
pub open spec fn validated(c: NodeConfig, r: std::result::Result<(), ConfigError>) -> bool {
    if c.node_id@.len() > 0 && uuid_value(c.node_id@) is None {
        r matches Err(ConfigError::NodeId { id, cause }) && id@ == c.node_id@ && cause@
            == uuid_error_text(c.node_id@)
    } else if c.node_type@ != "Heavy"@ && c.node_type@ != "Light"@ {
        r matches Err(ConfigError::NodeKind { got }) && got@ == c.node_type@
    } else {
        match first_bad_address(texts(c.listen_addresses@)) {
            Some(i) => r matches Err(ConfigError::ListenAddress { address, cause }) && address@
                == c.listen_addresses@[i]@ && cause@ == multiaddr_notation(
                c.listen_addresses@[i]@,
            )->Err_0,
            None => r is Ok,
        }
    }
}

/// The identifier that a configuration gives its node, or a fresh one.
pub open spec fn configured_id(node_id: Seq<char>, fresh: NodeId) -> NodeId {
    match uuid_value(node_id) {
        Some(id) => if node_id.len() > 0 {
            id as u128
        } else {
            fresh
        },
        None => fresh,
    }
}

/// The mode that a configured value leads to: an unknown word means reuse.
pub open spec fn configured_mode(value: Seq<char>) -> VmMode {
    match mode_named(ascii_lower(trimmed(value))) {
        Some(mode) => mode,
        None => VmMode::Reuse,
    }
}

/// The descriptor that a configuration leads to.
pub open spec fn described(c: NodeConfig, fresh: NodeId, os: OsType, now: Timestamp) -> DescriptorView {
    DescriptorView {
        node_id: configured_id(c.node_id@, fresh),
        node_type: if c.node_type@ == "Light"@ {
            NodeType::Light
        } else {
            NodeType::Heavy
        },
        os,
        capabilities: CapabilitiesView {
            storage: c.capabilities.storage,
            gpu_acceleration: c.capabilities.gpu_acceleration,
            runtimes: texts(c.capabilities.runtimes@),
            max_memory_mb: c.capabilities.max_memory_mb,
            cpu_cores: c.capabilities.cpu_cores,
            project_sandbox: c.capabilities.project_sandbox,
        },
        advertised_addresses: Seq::empty(),
        current_assigned_roles: roles_named(texts(c.roles@)),
        started_at: now,
        raft_id: c.raft_id,
    }
}

fn as_text(o: &Option<String>) -> (r: Option<&str>)
    ensures
        match o {
            Some(s) => r is Some && r->Some_0@ == s@,
            None => r is None,
        },
{
    match o {
        Some(s) => Some(s.as_str()),
        None => None,
    }
}

impl NodeConfig {
    /// The configuration from a file that was read and parsed, once it is valid.
    pub fn load(
        path: &str,
        read: std::result::Result<std::result::Result<NodeConfig, String>, String>,
    ) -> (r: std::result::Result<NodeConfig, ConfigError>)
        ensures
            match read {
                Err(e) => r matches Err(ConfigError::Unread { path: p, cause }) && p@ == path@
                    && cause == e,
                Ok(Err(e)) => r matches Err(ConfigError::Unparsed { path: p, cause }) && p@ == path@
                    && cause == e,
                Ok(Ok(config)) => match r {
                    Ok(c) => c == config && validated(config, Ok(())),
                    Err(e) => validated(config, Err(e)),
                },
            },
    {
        match read {
            Err(cause) => Err(ConfigError::Unread { path: String::from_str(path), cause }),
            Ok(Err(cause)) => Err(ConfigError::Unparsed { path: String::from_str(path), cause }),
            Ok(Ok(config)) => match config.validate() {
                Ok(_) => Ok(config),
                Err(e) => Err(e),
            },
        }
    }

    /// Check the configured values.
    pub fn validate(&self) -> (r: std::result::Result<(), ConfigError>)
        ensures
            validated(*self, r),
    {
        if !str_eq(self.node_id.as_str(), "") {
            assert(self.node_id@.len() > 0) by {
                reveal_strlit("");
                if self.node_id@.len() == 0 {
                    assert(self.node_id@ =~= ""@);
                }
            }
            match parse_uuid(self.node_id.as_str()) {
                Ok(_) => {},
                Err(cause) => {
                    return Err(ConfigError::NodeId { id: self.node_id.clone(), cause });
                },
            }
        } else {
            assert(self.node_id@.len() == 0) by {
                reveal_strlit("");
            }
        }
        if !str_eq(self.node_type.as_str(), "Heavy") && !str_eq(self.node_type.as_str(), "Light") {
            return Err(ConfigError::NodeKind { got: self.node_type.clone() });
        }
        let ghost all = texts(self.listen_addresses@);
        let mut i: usize = 0;
        assert(all.take(0) =~= Seq::<Seq<char>>::empty());
        while i < self.listen_addresses.len()
            invariant
                i <= self.listen_addresses@.len(),
                all == texts(self.listen_addresses@),
                first_bad_address(all.take(i as int)) is None,
                !(self.node_id@.len() > 0 && uuid_value(self.node_id@) is None),
                self.node_type@ == "Heavy"@ || self.node_type@ == "Light"@,
            decreases self.listen_addresses@.len() - i,
        {
            assert(all.take(i + 1).drop_last() =~= all.take(i as int));
            assert(all.take(i + 1).last() == self.listen_addresses@[i as int]@);
            match parse_multiaddr(self.listen_addresses[i].as_str()) {
                Ok(_) => {},
                Err(cause) => {
                    proof {
                        bad_address_stays_first(all, i + 1);
                    }
                    return Err(
                        ConfigError::ListenAddress {
                            address: self.listen_addresses[i].clone(),
                            cause,
                        },
                    );
                },
            }
            i += 1;
        }
        assert(all.take(i as int) =~= all);
        Ok(())
    }

    /// The custom sandbox image, if one is configured. A source without a digest,
    /// or the reverse, is an error.
    pub fn project_image_template(&self) -> (r: std::result::Result<Option<ImageTemplate>, String>)
        ensures
            match (self.capabilities.project_image_source, self.capabilities.project_image_digest) {
                (Some(s), Some(d)) => r is Ok && r->Ok_0 is Some && r->Ok_0->Some_0.source@ == s@
                    && r->Ok_0->Some_0.digest@ == d@,
                (None, None) => r is Ok && r->Ok_0 is None,
                _ => r is Err && r->Err_0@ == error_message(
                    ErrorView::Configuration(
                        "a custom sandbox image needs both source and digest"@,
                    ),
                ),
            },
    {
        let source = as_text(&self.capabilities.project_image_source);
        let digest = as_text(&self.capabilities.project_image_digest);
        match ImageTemplate::from_config(source, digest) {
            Ok(template) => Ok(template),
            Err(e) => Err(e.to_string()),
        }
    }

    /// The pool size in fresh mode, within the sandbox's bound.
    pub fn project_vm_pool_size(&self) -> (r: usize)
        ensures
            r == (if self.capabilities.project_vm_pool_size > MAX_POOL_TARGET {
                MAX_POOL_TARGET
            } else {
                self.capabilities.project_vm_pool_size
            }),
    {
        if self.capabilities.project_vm_pool_size > MAX_POOL_TARGET {
            MAX_POOL_TARGET
        } else {
            self.capabilities.project_vm_pool_size
        }
    }

    /// Apply command-line overrides of the sandbox policy.
    pub fn apply_sandbox_overrides(&mut self, vm_mode: Option<&str>, pool_size: Option<usize>)
        ensures
            final(self).capabilities.project_vm_mode@ == (match vm_mode {
                Some(mode) => mode@,
                None => old(self).capabilities.project_vm_mode@,
            }),
            final(self).capabilities.project_vm_pool_size == (match pool_size {
                Some(size) => size,
                None => old(self).capabilities.project_vm_pool_size,
            }),
            *final(self) == (NodeConfig {
                capabilities: CapabilitiesConfig {
                    project_vm_mode: final(self).capabilities.project_vm_mode,
                    project_vm_pool_size: final(self).capabilities.project_vm_pool_size,
                    ..old(self).capabilities
                },
                ..*old(self)
            }),
    {
        match vm_mode {
            Some(mode) => {
                self.capabilities.project_vm_mode = String::from_str(mode);
            },
            None => {},
        }
        match pool_size {
            Some(size) => {
                self.capabilities.project_vm_pool_size = size;
            },
            None => {},
        }
    }

    /// Whether project sandboxes are wanted, and how machines are treated.
    pub fn project_sandbox_policy(&self) -> (r: (bool, VmMode))
        ensures
            r.0 == self.capabilities.project_sandbox,
            r.1 == configured_mode(self.capabilities.project_vm_mode@),
    {
        (self.capabilities.project_sandbox, self.project_vm_mode())
    }

    /// How machines are treated; a value that cannot be read means reuse.
    pub fn project_vm_mode(&self) -> (r: VmMode)
        ensures
            r == configured_mode(self.capabilities.project_vm_mode@),
    {
        match VmMode::parse(self.capabilities.project_vm_mode.as_str()) {
            Ok(mode) => mode,
            Err(_) => VmMode::Reuse,
        }
    }

    /// The descriptor that the node advertises, given a fresh identifier, the
    /// operating system and the time.
    pub fn to_descriptor(&self, fresh: NodeId, os: OsType, now: Timestamp) -> (r: NodeDescriptor)
        ensures
            r@ == described(*self, fresh, os, now),
    {
        let node_id: NodeId = if str_eq(self.node_id.as_str(), "") {
            assert(self.node_id@.len() == 0) by {
                reveal_strlit("");
            }
            fresh
        } else {
            assert(self.node_id@.len() > 0) by {
                reveal_strlit("");
                if self.node_id@.len() == 0 {
                    assert(self.node_id@ =~= ""@);
                }
            }
            match parse_uuid(self.node_id.as_str()) {
                Ok(id) => id,
                Err(_) => fresh,
            }
        };
        let node_type = if str_eq(self.node_type.as_str(), "Light") {
            NodeType::Light
        } else {
            NodeType::Heavy
        };
        let capabilities = Capabilities {
            storage: self.capabilities.storage,
            gpu_acceleration: self.capabilities.gpu_acceleration,
            runtimes: clone_texts(&self.capabilities.runtimes),
            max_memory_mb: self.capabilities.max_memory_mb,
            cpu_cores: self.capabilities.cpu_cores,
            project_sandbox: self.capabilities.project_sandbox,
        };
        let addresses: Vec<String> = Vec::new();
        assert(texts(addresses@) =~= Seq::<Seq<char>>::empty());
        NodeDescriptor {
            node_id,
            node_type,
            os,
            capabilities,
            advertised_addresses: addresses,
            current_assigned_roles: roles_from(&self.roles),
            started_at: now,
            raft_id: self.raft_id,
        }
    }
}

proof fn bad_address_stays_first(v: Seq<Seq<char>>, n: int)
    requires
        0 <= n <= v.len(),
        first_bad_address(v.take(n)) is Some,
    ensures
        first_bad_address(v) == first_bad_address(v.take(n)),
    decreases v.len() - n,
{
    if n == v.len() {
        assert(v.take(n) =~= v);
    } else {
        assert(v.take(n + 1).drop_last() =~= v.take(n));
        bad_address_stays_first(v, n + 1);
    }
}

/// Each role has a name of its own, and no other text names a role.
pub proof fn role_names_are_told_apart(text: Seq<char>)
    ensures
        role_named(text) == Some(Role::Storage) <==> text == "Storage"@,
        role_named(text) == Some(Role::Execution) <==> text == "Execution"@,
        role_named(text) == Some(Role::Inference) <==> text == "Inference"@,
        role_named(text) == Some(Role::Coordinator) <==> text == "Coordinator"@,
        role_named(text) == Some(Role::Bootstrap) <==> text == "Bootstrap"@,
{
    reveal_strlit("Storage");
    reveal_strlit("Execution");
    reveal_strlit("Inference");
    reveal_strlit("Coordinator");
    reveal_strlit("Bootstrap");
    assert("Storage"@[0] == 'S' && "Execution"@[0] == 'E' && "Inference"@[0] == 'I'
        && "Coordinator"@[0] == 'C' && "Bootstrap"@[0] == 'B');
}

/// A node has exactly the roles that its configuration names.
pub proof fn roles_are_those_named(v: Seq<Seq<char>>, role: Role)
    ensures
        roles_named(v).contains(role) <==> exists|i: int|
            0 <= i < v.len() && role_named(#[trigger] v[i]) == Some(role),
        roles_named(v).len() <= v.len(),
    decreases v.len(),
{
    if v.len() > 0 {
        let front = v.drop_last();
        let before = roles_named(front);
        let all = roles_named(v);
        roles_are_those_named(front, role);
        assert(v[v.len() - 1] == v.last());
        if before.contains(role) {
            let i = choose|i: int| 0 <= i < before.len() && before[i] == role;
            assert(all[i] == role);
            let k = choose|k: int|
                0 <= k < front.len() && role_named(#[trigger] front[k]) == Some(role);
            assert(v[k] == front[k]);
        }
        if role_named(v.last()) is Some {
            assert(all[before.len() as int] == role_named(v.last())->Some_0);
        }
        if all.contains(role) && !before.contains(role) {
            let i = choose|i: int| 0 <= i < all.len() && all[i] == role;
            if i < before.len() {
                assert(before[i] == role);
            }
        }
        if exists|i: int| 0 <= i < v.len() && role_named(#[trigger] v[i]) == Some(role) {
            let k = choose|k: int| 0 <= k < v.len() && role_named(#[trigger] v[k]) == Some(role);
            if k < front.len() {
                assert(front[k] == v[k]);
            }
        }
    }
}

proof fn first_bad_address_is_the_first(v: Seq<Seq<char>>)
    ensures
        match first_bad_address(v) {
            Some(i) => 0 <= i < v.len() && multiaddr_notation(v[i]) is Err && forall|k: int|
                0 <= k < i ==> multiaddr_notation(#[trigger] v[k]) is Ok,
            None => forall|k: int| 0 <= k < v.len() ==> multiaddr_notation(#[trigger] v[k]) is Ok,
        },
    decreases v.len(),
{
    if v.len() > 0 {
        let front = v.drop_last();
        first_bad_address_is_the_first(front);
        assert forall|k: int| 0 <= k < front.len() implies front[k] == #[trigger] v[k] by {}
    }
}

/// A configuration is valid exactly where its node id is empty or a UUID, its type is
/// one of the two, and every listen address is one. What is reported is the value
/// that is wrong, and of several addresses the first.
pub proof fn valid_configurations_are_usable(c: NodeConfig, r: std::result::Result<(), ConfigError>)
    requires
        validated(c, r),
    ensures
        r is Ok <==> (c.node_id@.len() == 0 || uuid_value(c.node_id@) is Some) && (c.node_type@
            == "Heavy"@ || c.node_type@ == "Light"@) && (forall|i: int|
            0 <= i < c.listen_addresses@.len() ==> multiaddr_notation(
                (#[trigger] c.listen_addresses@[i])@,
            ) is Ok),
        r matches Err(ConfigError::NodeId { id, .. }) ==> id@ == c.node_id@ && uuid_value(
            id@,
        ) is None,
        r matches Err(ConfigError::NodeKind { got }) ==> got@ == c.node_type@,
        r matches Err(ConfigError::ListenAddress { address, .. }) ==> multiaddr_notation(
            address@,
        ) is Err && exists|i: int|
            0 <= i < c.listen_addresses@.len() && (#[trigger] c.listen_addresses@[i])@ == address@
                && forall|k: int|
                0 <= k < i ==> multiaddr_notation((#[trigger] c.listen_addresses@[k])@) is Ok,
{
    let v = texts(c.listen_addresses@);
    first_bad_address_is_the_first(v);
    assert forall|k: int| 0 <= k < v.len() implies #[trigger] v[k] == c.listen_addresses@[k]@ by {}
    if first_bad_address(v) is Some {
        let i = first_bad_address(v)->Some_0;
        assert(c.listen_addresses@[i]@ == v[i]);
        assert forall|k: int| 0 <= k < i implies multiaddr_notation(
            (#[trigger] c.listen_addresses@[k])@,
        ) is Ok by {
            assert(v[k] == c.listen_addresses@[k]@);
        }
    } else {
        assert forall|k: int| 0 <= k < v.len() implies multiaddr_notation(
            (#[trigger] c.listen_addresses@[k])@,
        ) is Ok by {
            assert(v[k] == c.listen_addresses@[k]@);
        }
    }
}

/// The descriptor says of the node what its configuration says, and a node that
/// names no id gets the fresh one.
pub proof fn descriptor_says_what_is_configured(
    c: NodeConfig,
    fresh: NodeId,
    os: OsType,
    now: Timestamp,
)
    ensures
        ({
            let d = described(c, fresh, os, now);
            &&& c.node_id@.len() == 0 ==> d.node_id == fresh
            &&& c.node_id@.len() > 0 && uuid_value(c.node_id@) is Some ==> d.node_id
                == uuid_value(c.node_id@)->Some_0 as u128
            &&& d.node_type == NodeType::Light <==> c.node_type@ == "Light"@
            &&& d.os == os
            &&& d.started_at == now
            &&& d.raft_id == c.raft_id
            &&& d.capabilities.storage == c.capabilities.storage
            &&& d.capabilities.gpu_acceleration == c.capabilities.gpu_acceleration
            &&& d.capabilities.runtimes.len() == c.capabilities.runtimes@.len()
            &&& forall|i: int|
                0 <= i < c.capabilities.runtimes@.len() ==> #[trigger] d.capabilities.runtimes[i]
                    == c.capabilities.runtimes@[i]@
            &&& d.capabilities.max_memory_mb == c.capabilities.max_memory_mb
            &&& d.capabilities.cpu_cores == c.capabilities.cpu_cores
            &&& d.capabilities.project_sandbox == c.capabilities.project_sandbox
            &&& forall|role: Role| #[trigger]
                d.current_assigned_roles.contains(role) <==> exists|i: int|
                    0 <= i < c.roles@.len() && role_named((#[trigger] c.roles@[i])@) == Some(role)
        }),
{
    let d = described(c, fresh, os, now);
    let v = texts(c.roles@);
    assert forall|role: Role| #[trigger]
        d.current_assigned_roles.contains(role) <==> exists|i: int|
            0 <= i < c.roles@.len() && role_named((#[trigger] c.roles@[i])@) == Some(role) by {
        roles_are_those_named(v, role);
        if d.current_assigned_roles.contains(role) {
            let k = choose|k: int| 0 <= k < v.len() && role_named(#[trigger] v[k]) == Some(role);
            assert(c.roles@[k]@ == v[k]);
        }
        if exists|i: int|
            0 <= i < c.roles@.len() && role_named((#[trigger] c.roles@[i])@) == Some(role) {
            let k = choose|k: int|
                0 <= k < c.roles@.len() && role_named((#[trigger] c.roles@[k])@) == Some(role);
            assert(v[k] == c.roles@[k]@);
        }
    }
}

/// A machine is thrown away after each task only where the configuration asks for
/// that, in one of the words for it.
pub proof fn fresh_machines_are_asked_for(value: Seq<char>)
    ensures
        configured_mode(value) == VmMode::Fresh <==> ascii_lower(trimmed(value)) == "fresh"@
            || ascii_lower(trimmed(value)) == "per-task"@ || ascii_lower(trimmed(value))
            == "isolated"@,
{
    reveal_strlit("");
    reveal_strlit("reuse");
    reveal_strlit("warm");
    reveal_strlit("fresh");
    reveal_strlit("per-task");
    reveal_strlit("isolated");
    assert("reuse"@[0] == 'r' && "warm"@[0] == 'w' && "fresh"@[0] == 'f' && "per-task"@[0] == 'p'
        && "isolated"@[0] == 'i');
    assert(""@.len() == 0 && "fresh"@.len() == 5 && "per-task"@.len() == 8 && "isolated"@.len()
        == 8);
}

} // verus!
