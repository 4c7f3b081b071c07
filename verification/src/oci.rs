//! Oracle Cloud requests: the instance launch payload, the free-tier launch
//! planner, and the pieces of a signed request (host, URL, canonical target,
//! signing string and `Authorization` header).
use vstd::prelude::*;

use crate::config::{DefaultShapeCandidate, FreeTierDefaults, LaunchInstanceConfig, ShapeConfig};
use crate::text::{concat3, copy_str, join, join_strings, str_eq, views};

verus! {

// ---------------------------------------------------------------------------
// Launch payload
// ---------------------------------------------------------------------------

/// The body of an OCI `LaunchInstance` request.
#[derive(Debug, PartialEq, Eq)]
pub struct CreateInstanceRequest {
    pub availability_domain: String,
    pub compartment_id: String,
    pub metadata: Metadata,
    pub display_name: String,
    pub source_details: SourceDetails,
    pub shape: String,
    pub shape_config: Option<ShapeConfigPayload>,
    pub create_vnic_details: CreateVnicDetails,
    pub instance_options: InstanceOptions,
    /// Defined tags, as key and value strings.
    pub defined_tags: Vec<(String, String)>,
    /// Free-form tags, as key and value strings.
    pub freeform_tags: Vec<(String, String)>,
    pub availability_config: AvailabilityConfig,
    pub agent_config: AgentConfig,
}

#[derive(Debug, PartialEq, Eq)]
pub struct Metadata {
    pub ssh_authorized_keys: String,
}

#[derive(Debug, PartialEq, Eq)]
pub struct SourceDetails {
    pub source_type: String,
    pub image_id: String,
    pub boot_volume_size_in_gbs: u32,
    pub boot_volume_vpus_per_gb: u32,
}

#[derive(Debug, Clone, Copy, PartialEq, Eq)]
pub struct ShapeConfigPayload {
    pub ocpus: u32,
    pub memory_in_gbs: u32,
}

#[derive(Debug, PartialEq, Eq)]
pub struct CreateVnicDetails {
    pub assign_public_ip: bool,
    pub subnet_id: String,
    pub assign_private_dns_record: bool,
    pub assign_ipv6_ip: bool,
    pub ipv6_address_ipv6_subnet_cidr_pair_details: Vec<Ipv6AddressIpv6SubnetCidrPairDetail>,
}

#[derive(Debug, PartialEq, Eq)]
pub struct Ipv6AddressIpv6SubnetCidrPairDetail {
    pub ipv6_subnet_cidr: String,
}

#[derive(Debug, PartialEq, Eq)]
pub struct InstanceOptions {
    pub are_legacy_imds_endpoints_disabled: bool,
}

#[derive(Debug, PartialEq, Eq)]
pub struct AvailabilityConfig {
    pub recovery_action: String,
}

#[derive(Debug, PartialEq, Eq)]
pub struct AgentConfig {
    pub plugins_config: Vec<PluginConfig>,
    pub is_monitoring_disabled: bool,
    pub is_management_disabled: bool,
}

#[derive(Debug, PartialEq, Eq)]
pub struct PluginConfig {
    pub name: String,
    pub desired_state: String,
}

/// What OCI answers to a launch request.
#[derive(Debug, PartialEq, Eq)]
pub struct CreateInstanceResponse {
    pub id: String,
    pub lifecycle_state: Option<String>,
    pub display_name: Option<String>,
}

/// An availability domain of a compartment.
#[derive(Debug, PartialEq, Eq)]
pub struct AvailabilityDomain {
    pub name: String,
}

/// A subnet of a compartment.
#[derive(Debug, PartialEq, Eq)]
pub struct Subnet {
    pub id: String,
    pub lifecycle_state: String,
}

/// An image that a shape can boot.
#[derive(Debug, PartialEq, Eq)]
pub struct ImageSummary {
    pub id: String,
    pub lifecycle_state: String,
}

/// An agent plugin in the given state.
pub fn plugin(name: &str, desired_state: &str) -> (r: PluginConfig)
    ensures
        r.name@ == name@,
        r.desired_state@ == desired_state@,
{
    PluginConfig { name: copy_str(name), desired_state: copy_str(desired_state) }
}

/// The plugin at position `i` of the default agent configuration is `name`,
/// enabled.
pub open spec fn enabled_plugin(p: PluginConfig, name: Seq<char>) -> bool {
    p.name@ == name && p.desired_state@ == "ENABLED"@
}

impl Default for AgentConfig {
    /// The four plugins the launcher enables, with monitoring and management
    /// left on.
    fn default() -> (r: Self)
        ensures
            r.plugins_config@.len() == 4,
            enabled_plugin(r.plugins_config@[0], "Custom Logs Monitoring"@),
            enabled_plugin(r.plugins_config@[1], "Compute Instance Run Command"@),
            enabled_plugin(r.plugins_config@[2], "Compute Instance Monitoring"@),
            enabled_plugin(r.plugins_config@[3], "Cloud Guard Workload Protection"@),
            !r.is_monitoring_disabled,
            !r.is_management_disabled,
    {
        let mut plugins_config: Vec<PluginConfig> = Vec::new();
        plugins_config.push(plugin("Custom Logs Monitoring", "ENABLED"));
        plugins_config.push(plugin("Compute Instance Run Command", "ENABLED"));
        plugins_config.push(plugin("Compute Instance Monitoring", "ENABLED"));
        plugins_config.push(plugin("Cloud Guard Workload Protection", "ENABLED"));
        AgentConfig { plugins_config, is_monitoring_disabled: false, is_management_disabled: false }
    }
}

/// Why a launch payload could not be built.
#[derive(Debug, PartialEq, Eq)]
pub enum PayloadError {
    /// Neither a shape nor a shape configuration was given.
    ShapeMissing,
}

impl PayloadError {
    pub fn message(&self) -> (r: String)
        ensures
            r@ == "shape must be provided when building an OCI launch request"@,
    {
        copy_str("shape must be provided when building an OCI launch request")
    }
}

/// The shape a launch asks for: the configured one; else the A1 flexible
/// shape when a shape configuration is given; else none.
pub open spec fn launch_shape(config: LaunchInstanceConfig) -> Option<Seq<char>> {
    match config.shape {
        Some(s) => Some(s@),
        None => match config.shape_config {
            Some(_) => Some("VM.Standard.A1.Flex"@),
            None => None,
        },
    }
}

/// The IPv6 address requests of a VNIC: one for the configured subnet CIDR,
/// none without it.
pub open spec fn ipv6_pairs_match(
    pairs: Seq<Ipv6AddressIpv6SubnetCidrPairDetail>,
    cidr: Option<String>,
) -> bool {
    match cidr {
        Some(c) => pairs.len() == 1 && pairs[0].ipv6_subnet_cidr@ == c@,
        None => pairs.len() == 0,
    }
}

impl CreateInstanceRequest {
    /// The launch request for `config`: its placement, image and SSH key; a
    /// boot volume of the configured size (200 GB if unset) and performance
    /// (120 VPUs/GB if unset); its VNIC settings; legacy IMDS endpoints
    /// kept; no tags; restore on failure; the default agent plugins.
    pub fn from_launch_config(config: &LaunchInstanceConfig) -> (r: Result<Self, PayloadError>)
        ensures
            match launch_shape(*config) {
                None => r == Err::<Self, PayloadError>(PayloadError::ShapeMissing),
                Some(shape) => match r {
                    Err(_) => false,
                    Ok(req) => {
                        &&& req.shape@ == shape
                        &&& req.availability_domain@ == config.availability_domain@
                        &&& req.compartment_id@ == config.compartment_id@
                        &&& req.metadata.ssh_authorized_keys@ == config.ssh_authorized_keys@
                        &&& req.display_name@ == config.display_name@
                        &&& req.source_details.source_type@ == "image"@
                        &&& req.source_details.image_id@ == config.image_id@
                        &&& req.source_details.boot_volume_size_in_gbs == match config.boot_volume_size_in_gbs {
                            Some(v) => v,
                            None => 200u32,
                        }
                        &&& req.source_details.boot_volume_vpus_per_gb == match config.boot_volume_vpus_per_gb {
                            Some(v) => v,
                            None => 120u32,
                        }
                        &&& req.shape_config == match config.shape_config {
                            Some(c) => Some(
                                ShapeConfigPayload { ocpus: c.ocpus, memory_in_gbs: c.memory_in_gbs },
                            ),
                            None => None,
                        }
                        &&& req.create_vnic_details.assign_public_ip == config.assign_public_ip
                        &&& req.create_vnic_details.subnet_id@ == config.subnet_id@
                        &&& req.create_vnic_details.assign_private_dns_record
                            == config.assign_private_dns_record
                        &&& req.create_vnic_details.assign_ipv6_ip == config.assign_ipv6_ip
                        &&& ipv6_pairs_match(
                            req.create_vnic_details.ipv6_address_ipv6_subnet_cidr_pair_details@,
                            config.ipv6_subnet_cidr,
                        )
                        &&& !req.instance_options.are_legacy_imds_endpoints_disabled
                        &&& req.defined_tags@.len() == 0
                        &&& req.freeform_tags@.len() == 0
                        &&& req.availability_config.recovery_action@ == "RESTORE_INSTANCE"@
                        &&& req.agent_config.plugins_config@.len() == 4
                        &&& enabled_plugin(req.agent_config.plugins_config@[0], "Custom Logs Monitoring"@)
                        &&& enabled_plugin(req.agent_config.plugins_config@[1], "Compute Instance Run Command"@)
                        &&& enabled_plugin(req.agent_config.plugins_config@[2], "Compute Instance Monitoring"@)
                        &&& enabled_plugin(req.agent_config.plugins_config@[3], "Cloud Guard Workload Protection"@)
                        &&& !req.agent_config.is_monitoring_disabled
                        &&& !req.agent_config.is_management_disabled
                    },
                },
            },
    {
        let shape = match &config.shape {
            Some(s) => s.clone(),
            None => match &config.shape_config {
                Some(_) => copy_str("VM.Standard.A1.Flex"),
                None => {
                    return Err(PayloadError::ShapeMissing);
                },
            },
        };
        let boot_volume_size_in_gbs = match config.boot_volume_size_in_gbs {
            Some(v) => v,
            None => 200,
        };
        let boot_volume_vpus_per_gb = match config.boot_volume_vpus_per_gb {
            Some(v) => v,
            None => 120,
        };
        let shape_config = match config.shape_config {
            Some(c) => Some(ShapeConfigPayload { ocpus: c.ocpus, memory_in_gbs: c.memory_in_gbs }),
            None => None,
        };
        let mut pairs: Vec<Ipv6AddressIpv6SubnetCidrPairDetail> = Vec::new();
        match &config.ipv6_subnet_cidr {
            Some(cidr) => {
                pairs.push(Ipv6AddressIpv6SubnetCidrPairDetail { ipv6_subnet_cidr: cidr.clone() });
            },
            None => {},
        }
        Ok(
            CreateInstanceRequest {
                availability_domain: config.availability_domain.clone(),
                compartment_id: config.compartment_id.clone(),
                metadata: Metadata { ssh_authorized_keys: config.ssh_authorized_keys.clone() },
                display_name: config.display_name.clone(),
                source_details: SourceDetails {
                    source_type: copy_str("image"),
                    image_id: config.image_id.clone(),
                    boot_volume_size_in_gbs,
                    boot_volume_vpus_per_gb,
                },
                shape,
                shape_config,
                create_vnic_details: CreateVnicDetails {
                    assign_public_ip: config.assign_public_ip,
                    subnet_id: config.subnet_id.clone(),
                    assign_private_dns_record: config.assign_private_dns_record,
                    assign_ipv6_ip: config.assign_ipv6_ip,
                    ipv6_address_ipv6_subnet_cidr_pair_details: pairs,
                },
                instance_options: InstanceOptions { are_legacy_imds_endpoints_disabled: false },
                defined_tags: Vec::new(),
                freeform_tags: Vec::new(),
                availability_config: AvailabilityConfig {
                    recovery_action: copy_str("RESTORE_INSTANCE"),
                },
                agent_config: AgentConfig::default(),
            },
        )
    }
}

// ---------------------------------------------------------------------------
// Launch planning
// ---------------------------------------------------------------------------

/// Where the launch template came from.
#[derive(Debug, Clone, Copy, PartialEq, Eq, Structural)]
pub enum LaunchStrategy {
    ExplicitConfig,
    FreeTierFallback,
}

/// A launch template together with how it was found and the shape size that
/// was chosen.
#[derive(Debug, PartialEq, Eq)]
pub struct ResolvedLaunch {
    pub strategy: LaunchStrategy,
    pub launch_config: LaunchInstanceConfig,
    pub selected_shape_ocpus: Option<u32>,
    pub selected_shape_memory_in_gbs: Option<u32>,
}

/// Why the free-tier fallback found no template.
#[derive(Debug, PartialEq, Eq)]
pub enum DiscoveryError {
    NoAvailabilityDomain,
    NoAvailableSubnet,
    NoShapeCandidate,
    NoImage,
    NoSshKey,
}

impl DiscoveryError {
    /// The text of this error.
    pub fn message(&self) -> (r: String)
        ensures
            r@ == match self {
                DiscoveryError::NoAvailabilityDomain => "no OCI availability domain found"@,
                DiscoveryError::NoAvailableSubnet => "no available subnet found in tenancy compartment"@,
                DiscoveryError::NoShapeCandidate => "no free-tier shape candidates configured"@,
                DiscoveryError::NoImage => "no Oracle Linux image found for selected shape"@,
                DiscoveryError::NoSshKey => "failed to resolve default SSH public key for free-tier launch"@,
            },
    {
        match self {
            DiscoveryError::NoAvailabilityDomain => copy_str("no OCI availability domain found"),
            DiscoveryError::NoAvailableSubnet => copy_str(
                "no available subnet found in tenancy compartment",
            ),
            DiscoveryError::NoShapeCandidate => copy_str("no free-tier shape candidates configured"),
            DiscoveryError::NoImage => copy_str("no Oracle Linux image found for selected shape"),
            DiscoveryError::NoSshKey => copy_str(
                "failed to resolve default SSH public key for free-tier launch",
            ),
        }
    }
}

/// The resolved launch for an explicit template: its shape size is the one
/// its shape configuration gives.
pub fn explicit_launch(config: LaunchInstanceConfig) -> (r: ResolvedLaunch)
    ensures
        r.strategy == LaunchStrategy::ExplicitConfig,
        r.launch_config == config,
        r.selected_shape_ocpus == match config.shape_config {
            Some(c) => Some(c.ocpus),
            None => None::<u32>,
        },
        r.selected_shape_memory_in_gbs == match config.shape_config {
            Some(c) => Some(c.memory_in_gbs),
            None => None::<u32>,
        },
{
    let selected_shape_ocpus = match config.shape_config {
        Some(c) => Some(c.ocpus),
        None => None,
    };
    let selected_shape_memory_in_gbs = match config.shape_config {
        Some(c) => Some(c.memory_in_gbs),
        None => None,
    };
    ResolvedLaunch {
        strategy: LaunchStrategy::ExplicitConfig,
        launch_config: config,
        selected_shape_ocpus,
        selected_shape_memory_in_gbs,
    }
}

/// Whether `s` reads `AVAILABLE`.
fn is_available(s: &String) -> (r: bool)
    ensures
        r == (s@ == "AVAILABLE"@),
{
    str_eq(s.as_str(), "AVAILABLE")
}

/// The name of the first availability domain.
pub fn first_availability_domain(ads: &Vec<AvailabilityDomain>) -> (r: Result<
    String,
    DiscoveryError,
>)
    ensures
        ads@.len() == 0 ==> r == Err::<String, DiscoveryError>(
            DiscoveryError::NoAvailabilityDomain,
        ),
        ads@.len() > 0 ==> r == Ok::<String, DiscoveryError>(ads@[0].name),
{
    if ads.len() == 0 {
        Err(DiscoveryError::NoAvailabilityDomain)
    } else {
        Ok(ads[0].name.clone())
    }
}

/// The index of the first entry whose state is `AVAILABLE`, if any.
pub open spec fn first_available_index(states: Seq<Seq<char>>) -> Option<int> {
    if exists|i: int| 0 <= i < states.len() && states[i] == "AVAILABLE"@ {
        Some(
            choose|i: int|
                0 <= i < states.len() && states[i] == "AVAILABLE"@ && forall|k: int|
                    0 <= k < i ==> states[k] != "AVAILABLE"@,
        )
    } else {
        None
    }
}

/// The lifecycle states of subnets.
pub open spec fn subnet_states(s: Seq<Subnet>) -> Seq<Seq<char>> {
    s.map_values(|x: Subnet| x.lifecycle_state@)
}

/// The lifecycle states of images.
pub open spec fn image_states(s: Seq<ImageSummary>) -> Seq<Seq<char>> {
    s.map_values(|x: ImageSummary| x.lifecycle_state@)
}

proof fn lemma_first_available(states: Seq<Seq<char>>, i: int)
    requires
        0 <= i < states.len(),
        states[i] == "AVAILABLE"@,
        forall|k: int| 0 <= k < i ==> states[k] != "AVAILABLE"@,
    ensures
        first_available_index(states) == Some(i),
{
    let j = choose|j: int|
        0 <= j < states.len() && states[j] == "AVAILABLE"@ && forall|k: int|
            0 <= k < j ==> states[k] != "AVAILABLE"@;
    if j < i {
        assert(states[j] != "AVAILABLE"@);
    }
    if i < j {
        assert(states[i] != "AVAILABLE"@);
    }
}

/// The first subnet whose state is `AVAILABLE`.
pub fn first_available_subnet(subnets: &Vec<Subnet>) -> (r: Result<Subnet, DiscoveryError>)
    ensures
        match first_available_index(subnet_states(subnets@)) {
            None => r == Err::<Subnet, DiscoveryError>(DiscoveryError::NoAvailableSubnet),
            Some(i) => match r {
                Ok(s) => s.id@ == subnets@[i].id@ && s.lifecycle_state@ == "AVAILABLE"@,
                Err(_) => false,
            },
        },
{
    let ghost states = subnet_states(subnets@);
    let mut i: usize = 0;
    while i < subnets.len()
        invariant
            i <= subnets@.len(),
            states == subnet_states(subnets@),
            forall|k: int| 0 <= k < i ==> states[k] != "AVAILABLE"@,
        decreases subnets.len() - i,
    {
        if is_available(&subnets[i].lifecycle_state) {
            proof {
                lemma_first_available(states, i as int);
            }
            return Ok(
                Subnet {
                    id: subnets[i].id.clone(),
                    lifecycle_state: subnets[i].lifecycle_state.clone(),
                },
            );
        }
        i = i + 1;
    }
    Err(DiscoveryError::NoAvailableSubnet)
}

/// The first image whose state is `AVAILABLE`.
pub fn first_available_image(images: &Vec<ImageSummary>) -> (r: Result<
    ImageSummary,
    DiscoveryError,
>)
    ensures
        match first_available_index(image_states(images@)) {
            None => r == Err::<ImageSummary, DiscoveryError>(DiscoveryError::NoImage),
            Some(i) => match r {
                Ok(s) => s.id@ == images@[i].id@ && s.lifecycle_state@ == "AVAILABLE"@,
                Err(_) => false,
            },
        },
{
    let ghost states = image_states(images@);
    let mut i: usize = 0;
    while i < images.len()
        invariant
            i <= images@.len(),
            states == image_states(images@),
            forall|k: int| 0 <= k < i ==> states[k] != "AVAILABLE"@,
        decreases images.len() - i,
    {
        if is_available(&images[i].lifecycle_state) {
            proof {
                lemma_first_available(states, i as int);
            }
            return Ok(
                ImageSummary {
                    id: images[i].id.clone(),
                    lifecycle_state: images[i].lifecycle_state.clone(),
                },
            );
        }
        i = i + 1;
    }
    Err(DiscoveryError::NoImage)
}

/// Whether some image of `images` is available.
pub open spec fn has_available_image(images: Seq<ImageSummary>) -> bool {
    first_available_index(image_states(images)) is Some
}

/// `img` is the first available image of `images`.
pub open spec fn is_first_available(images: Seq<ImageSummary>, img: ImageSummary) -> bool {
    match first_available_index(image_states(images)) {
        Some(k) => img.id@ == images[k].id@ && img.lifecycle_state@ == "AVAILABLE"@,
        None => false,
    }
}

/// The image lists, one per candidate asked about.
pub open spec fn image_lists(fetched: Seq<Vec<ImageSummary>>) -> Seq<Seq<ImageSummary>> {
    fetched.map_values(|v: Vec<ImageSummary>| v@)
}

/// The first position at or after `from` whose image list has an available
/// image.
pub open spec fn first_with_image(lists: Seq<Seq<ImageSummary>>, from: int) -> Option<int>
    decreases lists.len() - from,
{
    if from < 0 || from >= lists.len() {
        None
    } else if has_available_image(lists[from]) {
        Some(from)
    } else {
        first_with_image(lists, from + 1)
    }
}

/// The first available entry of a list of lifecycle states is available and
/// comes after only unavailable ones; without one, none is available.
pub proof fn law_first_available_is_first(states: Seq<Seq<char>>)
    ensures
        match first_available_index(states) {
            Some(i) => 0 <= i < states.len() && states[i] == "AVAILABLE"@ && forall|k: int|
                0 <= k < i ==> states[k] != "AVAILABLE"@,
            None => forall|k: int| 0 <= k < states.len() ==> states[k] != "AVAILABLE"@,
        },
{
    if exists|i: int| 0 <= i < states.len() && states[i] == "AVAILABLE"@ {
        let i = choose|i: int| 0 <= i < states.len() && states[i] == "AVAILABLE"@;
        lemma_least_available(states, i);
    }
}

/// Below an available entry there is a least one.
proof fn lemma_least_available(states: Seq<Seq<char>>, i: int)
    requires
        0 <= i < states.len(),
        states[i] == "AVAILABLE"@,
    ensures
        exists|j: int|
            0 <= j < states.len() && states[j] == "AVAILABLE"@ && forall|k: int|
                0 <= k < j ==> states[k] != "AVAILABLE"@,
    decreases i,
{
    if exists|k: int| 0 <= k < i && states[k] == "AVAILABLE"@ {
        let k = choose|k: int| 0 <= k < i && states[k] == "AVAILABLE"@;
        lemma_least_available(states, k);
    } else {
        assert(forall|k: int| 0 <= k < i ==> states[k] != "AVAILABLE"@);
    }
}

/// The candidate the search settles on is the first, from `from` on, with an
/// image whose state is `AVAILABLE`; when there is none, no candidate from
/// `from` on has one.
pub proof fn law_first_with_image_is_first(lists: Seq<Seq<ImageSummary>>, from: int)
    requires
        0 <= from,
    ensures
        match first_with_image(lists, from) {
            Some(j) => from <= j < lists.len() && (exists|m: int|
                0 <= m < lists[j].len() && #[trigger] lists[j][m].lifecycle_state@
                    == "AVAILABLE"@) && forall|k: int, m: int|
                from <= k < j && 0 <= m < lists[k].len() ==> #[trigger] lists[k][m].lifecycle_state@
                    != "AVAILABLE"@,
            None => forall|k: int, m: int|
                from <= k < lists.len() && 0 <= m < lists[k].len()
                    ==> #[trigger] lists[k][m].lifecycle_state@ != "AVAILABLE"@,
        },
    decreases lists.len() - from,
{
    if from < lists.len() {
        law_first_with_image_is_first(lists, from + 1);
        let states = image_states(lists[from]);
        law_first_available_is_first(states);
        match first_available_index(states) {
            Some(i) => {
                assert(lists[from][i].lifecycle_state@ == states[i]);
            },
            None => {
                assert forall|m: int| 0 <= m < lists[from].len() implies lists[from][m].lifecycle_state@
                    != "AVAILABLE"@ by {
                    assert(states[m] == lists[from][m].lifecycle_state@);
                }
            },
        }
    }
}

/// The shape a launch asks for: the configured one, else the Ampere A1
/// flexible shape when only a shape size is given, else none.
pub proof fn law_launch_shape_choice(config: LaunchInstanceConfig)
    ensures
        config.shape matches Some(s) ==> launch_shape(config) == Some(s@),
        config.shape is None && config.shape_config is Some ==> launch_shape(config) == Some(
            "VM.Standard.A1.Flex"@,
        ),
        config.shape is None && config.shape_config is None ==> launch_shape(config) is None,
{
}

/// What the search for a free-tier shape needs or found.
#[derive(Debug, PartialEq, Eq)]
pub enum CandidateStep {
    /// Ask for the Oracle Linux images of the candidate at this position.
    FetchImages(usize),
    /// This candidate, with its first available image.
    Chosen(DefaultShapeCandidate, ImageSummary),
    /// The search failed.
    Exhausted(DiscoveryError),
}

/// Builds a launch template from the free-tier defaults and what the tenancy
/// offers.
#[derive(Debug)]
pub struct LaunchPlanner {
    pub defaults: FreeTierDefaults,
}

impl LaunchPlanner {
    pub fn new(defaults: FreeTierDefaults) -> (r: Self)
        ensures
            r.defaults == defaults,
    {
        LaunchPlanner { defaults }
    }

    /// The next step of the search for a shape, given the image lists of
    /// the candidates asked about so far (the first `fetched.len()`
    /// candidates, in priority order): the first of them with an available
    /// image, together with that image; else a request for the images of the
    /// next candidate; else, when every candidate was tried, the error that
    /// none has an image (or that none is configured).
    pub fn next_candidate_step(&self, fetched: &Vec<Vec<ImageSummary>>) -> (r: CandidateStep)
        requires
            fetched@.len() <= self.defaults.shape_candidates@.len(),
        ensures
            match first_with_image(image_lists(fetched@), 0) {
                Some(j) => r matches CandidateStep::Chosen(c, img) && c
                    == self.defaults.shape_candidates@[j] && is_first_available(
                    fetched@[j]@,
                    img,
                ),
                None => if fetched@.len() < self.defaults.shape_candidates@.len() {
                    r == CandidateStep::FetchImages(fetched@.len() as usize)
                } else if fetched@.len() == 0 {
                    r == CandidateStep::Exhausted(DiscoveryError::NoShapeCandidate)
                } else {
                    r == CandidateStep::Exhausted(DiscoveryError::NoImage)
                },
            },
    {
        let ghost lists = image_lists(fetched@);
        let mut j: usize = 0;
        while j < fetched.len()
            invariant
                lists == image_lists(fetched@),
                j <= fetched@.len(),
                fetched@.len() <= self.defaults.shape_candidates@.len(),
                first_with_image(lists, 0) == first_with_image(lists, j as int),
            decreases fetched.len() - j,
        {
            assert(lists[j as int] == fetched@[j as int]@);
            match first_available_image(&fetched[j]) {
                Ok(img) => {
                    return CandidateStep::Chosen(self.defaults.shape_candidates[j].clone(), img);
                },
                Err(_) => {},
            }
            j = j + 1;
        }
        if fetched.len() < self.defaults.shape_candidates.len() {
            CandidateStep::FetchImages(fetched.len())
        } else if fetched.len() == 0 {
            CandidateStep::Exhausted(DiscoveryError::NoShapeCandidate)
        } else {
            CandidateStep::Exhausted(DiscoveryError::NoImage)
        }
    }

    /// The free-tier template: the given placement, subnet and image, the
    /// candidate's shape and size, display name `oci-sniper-free-tier`, a
    /// 200 GB boot volume at 120 VPUs/GB, the configured public address
    /// choice, a private DNS record, and no IPv6.
    pub fn build(
        &self,
        compartment_id: String,
        availability_domain: String,
        subnet: Subnet,
        shape: DefaultShapeCandidate,
        image: ImageSummary,
        ssh_authorized_keys: String,
    ) -> (r: ResolvedLaunch)
        ensures
            r.strategy == LaunchStrategy::FreeTierFallback,
            r.launch_config.availability_domain == availability_domain,
            r.launch_config.compartment_id == compartment_id,
            r.launch_config.subnet_id == subnet.id,
            r.launch_config.image_id == image.id,
            r.launch_config.display_name@ == "oci-sniper-free-tier"@,
            r.launch_config.ssh_authorized_keys == ssh_authorized_keys,
            r.launch_config.shape == Some(shape.shape),
            r.launch_config.shape_config == Some(
                ShapeConfig { ocpus: shape.ocpus, memory_in_gbs: shape.memory_in_gbs },
            ),
            r.launch_config.boot_volume_size_in_gbs == Some(200u32),
            r.launch_config.boot_volume_vpus_per_gb == Some(120u32),
            r.launch_config.assign_public_ip == self.defaults.assign_public_ip,
            r.launch_config.assign_private_dns_record,
            !r.launch_config.assign_ipv6_ip,
            r.launch_config.ipv6_subnet_cidr is None,
            r.selected_shape_ocpus == Some(shape.ocpus),
            r.selected_shape_memory_in_gbs == Some(shape.memory_in_gbs),
    {
        let ocpus = shape.ocpus;
        let memory_in_gbs = shape.memory_in_gbs;
        let launch_config = LaunchInstanceConfig {
            availability_domain,
            compartment_id,
            subnet_id: subnet.id,
            image_id: image.id,
            display_name: copy_str("oci-sniper-free-tier"),
            ssh_authorized_keys,
            shape: Some(shape.shape),
            shape_config: Some(ShapeConfig { ocpus, memory_in_gbs }),
            boot_volume_size_in_gbs: Some(200),
            boot_volume_vpus_per_gb: Some(120),
            assign_public_ip: self.defaults.assign_public_ip,
            assign_private_dns_record: true,
            assign_ipv6_ip: false,
            ipv6_subnet_cidr: None,
        };
        ResolvedLaunch {
            strategy: LaunchStrategy::FreeTierFallback,
            launch_config,
            selected_shape_ocpus: Some(ocpus),
            selected_shape_memory_in_gbs: Some(memory_in_gbs),
        }
    }
}

// ---------------------------------------------------------------------------
// Request targets
// ---------------------------------------------------------------------------

/// The `key=value` pairs of a query, in order.
pub open spec fn query_pairs(query: Seq<(&str, &str)>) -> Seq<Seq<char>> {
    query.map_values(|kv: (&str, &str)| kv.0@ + "="@ + kv.1@)
}

/// The request target that a GET request signs: the path, then `?` and the
/// `key=value` pairs joined with `&`, in the given order and without
/// escaping; the bare path when there is no query.
pub open spec fn canonical_get_target_spec(path: Seq<char>, query: Seq<(&str, &str)>) -> Seq<char> {
    if query.len() == 0 {
        path
    } else {
        path + "?"@ + join(query_pairs(query), "&"@)
    }
}

/// The target of a GET request: the bare path without a query; with one
/// pair `(k, v)`, the path, `?`, `k`, `=` and `v`; and each further pair adds
/// `&`, its key, `=` and its value at the end, in the order given.
pub proof fn law_get_target_lists_every_pair(path: Seq<char>, query: Seq<(&str, &str)>)
    ensures
        query.len() == 0 ==> canonical_get_target_spec(path, query) == path,
        query.len() == 1 ==> canonical_get_target_spec(path, query) == path + "?"@ + query[0].0@
            + "="@ + query[0].1@,
        query.len() >= 2 ==> canonical_get_target_spec(path, query) == canonical_get_target_spec(
            path,
            query.drop_last(),
        ) + "&"@ + query.last().0@ + "="@ + query.last().1@,
{
    let pairs = query_pairs(query);
    if query.len() == 1 {
        assert(pairs.len() == 1);
        assert(join(pairs, "&"@) == pairs[0]);
        assert(path + "?"@ + (query[0].0@ + "="@ + query[0].1@) =~= path + "?"@ + query[0].0@
            + "="@ + query[0].1@);
    }
    if query.len() >= 2 {
        assert(query_pairs(query.drop_last()) =~= pairs.drop_last());
        assert(join(pairs, "&"@) == join(pairs.drop_last(), "&"@) + "&"@ + pairs.last());
        assert(pairs.last() == query.last().0@ + "="@ + query.last().1@);
        assert(path + "?"@ + (join(pairs.drop_last(), "&"@) + "&"@ + (query.last().0@ + "="@
            + query.last().1@)) =~= path + "?"@ + join(pairs.drop_last(), "&"@) + "&"@
            + query.last().0@ + "="@ + query.last().1@);
    }
}

/// The request target of a GET request with the given path and query.
pub fn canonical_get_target(path: &str, query: &[(&str, &str)]) -> (r: String)
    ensures
        r@ == canonical_get_target_spec(path@, query@),
{
    if query.len() == 0 {
        return copy_str(path);
    }
    let mut pairs: Vec<String> = Vec::new();
    let mut i: usize = 0;
    while i < query.len()
        invariant
            i <= query@.len(),
            views(pairs@) == query_pairs(query@).take(i as int),
        decreases query.len() - i,
    {
        let kv = query[i];
        let piece = concat3(kv.0, "=", kv.1);
        let ghost before = pairs@;
        pairs.push(piece);
        proof {
            assert(pairs@ == before.push(piece));
            assert(query_pairs(query@)[i as int] == piece@);
            assert(views(pairs@) =~= views(before).push(piece@));
            assert(query_pairs(query@).take(i + 1) =~= query_pairs(query@).take(i as int).push(
                piece@,
            ));
        }
        i = i + 1;
    }
    assert(query_pairs(query@).take(query@.len() as int) =~= query_pairs(query@));
    let joined = join_strings(&pairs, "&");
    concat3(path, "?", joined.as_str())
}

// ---------------------------------------------------------------------------
// Responses
// ---------------------------------------------------------------------------

/// The body of an OCI answer when its status is a success (2xx); otherwise
/// the error text that names the status (`status_text`, such as
/// `401 Unauthorized`) and the body.
pub fn response_body(status_code: u16, status_text: &str, body: String) -> (r: Result<
    String,
    String,
>)
    ensures
        200 <= status_code < 300 ==> r == Ok::<String, String>(body),
        !(200 <= status_code < 300) ==> (r matches Err(m) && m@ == "OCI request failed with status "@
            + status_text@ + ": "@ + body@),
{
    if 200 <= status_code && status_code < 300 {
        Ok(body)
    } else {
        let mut m = concat3("OCI request failed with status ", status_text, ": ");
        m.append(body.as_str());
        Err(m)
    }
}

} // verus!
