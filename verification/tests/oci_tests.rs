use oci_sniper_rs::config::{
    DefaultShapeCandidate, FreeTierDefaults, LaunchInstanceConfig, OciCredentials, ShapeConfig,
};
use oci_sniper_rs::oci::{
    canonical_get_target, explicit_launch, first_availability_domain, first_available_image,
    first_available_subnet, response_body, AvailabilityDomain, CandidateStep, CreateInstanceRequest, DiscoveryError,
    ImageSummary, LaunchPlanner, LaunchStrategy, PayloadError, Subnet,
};
use oci_sniper_rs::signing::{
    authorization_header, content_sha256, key_id, oci_host, oci_url, sign_request,
    signed_headers, signing_string, SignError,
};
use base64::Engine;
use rsa::pkcs1::EncodeRsaPrivateKey;
use rsa::signature::Verifier;
use rsa::pkcs8::EncodePrivateKey;

fn launch_config() -> LaunchInstanceConfig {
    LaunchInstanceConfig {
        availability_domain: "AD-1".to_string(),
        compartment_id: "ocid1.compartment.oc1..example".to_string(),
        subnet_id: "ocid1.subnet.oc1..example".to_string(),
        image_id: "ocid1.image.oc1..example".to_string(),
        display_name: "oci-cct-app-01".to_string(),
        ssh_authorized_keys: "ssh-rsa AAA".to_string(),
        shape: Some("VM.Standard.A1.Flex".to_string()),
        shape_config: Some(ShapeConfig { ocpus: 4, memory_in_gbs: 24 }),
        boot_volume_size_in_gbs: Some(200),
        boot_volume_vpus_per_gb: Some(120),
        assign_public_ip: true,
        assign_private_dns_record: true,
        assign_ipv6_ip: true,
        ipv6_subnet_cidr: Some("2603:c024:0017:e000::/64".to_string()),
    }
}

fn credentials() -> OciCredentials {
    OciCredentials {
        user: "ocid1.user.oc1..example".to_string(),
        fingerprint: "aa:bb:cc".to_string(),
        tenancy: "ocid1.tenancy.oc1..example".to_string(),
        region: "ap-chuncheon-1".to_string(),
        key_file: "/tmp/key.pem".to_string(),
    }
}

#[test]
fn builds_create_instance_request_from_launch_config() {
    let request = CreateInstanceRequest::from_launch_config(&launch_config()).unwrap();

    assert_eq!(request.shape, "VM.Standard.A1.Flex");
    assert_eq!(request.shape_config.unwrap().memory_in_gbs, 24);
    assert!(request.create_vnic_details.assign_ipv6_ip);
    assert_eq!(
        request
            .create_vnic_details
            .ipv6_address_ipv6_subnet_cidr_pair_details
            .len(),
        1
    );
}

#[test]
fn launch_request_defaults_and_missing_shape() {
    let mut config = launch_config();
    config.shape = None;
    config.boot_volume_size_in_gbs = None;
    config.boot_volume_vpus_per_gb = None;
    config.ipv6_subnet_cidr = None;
    let request = CreateInstanceRequest::from_launch_config(&config).unwrap();
    assert_eq!(request.shape, "VM.Standard.A1.Flex");
    assert_eq!(request.source_details.boot_volume_size_in_gbs, 200);
    assert_eq!(request.source_details.boot_volume_vpus_per_gb, 120);
    assert_eq!(request.source_details.source_type, "image");
    assert!(request.create_vnic_details.ipv6_address_ipv6_subnet_cidr_pair_details.is_empty());
    assert_eq!(request.availability_config.recovery_action, "RESTORE_INSTANCE");
    assert_eq!(request.agent_config.plugins_config.len(), 4);
    assert_eq!(request.agent_config.plugins_config[3].name, "Cloud Guard Workload Protection");
    assert_eq!(request.agent_config.plugins_config[0].desired_state, "ENABLED");
    config.shape_config = None;
    assert_eq!(
        CreateInstanceRequest::from_launch_config(&config).unwrap_err(),
        PayloadError::ShapeMissing
    );
    assert_eq!(
        PayloadError::ShapeMissing.message(),
        "shape must be provided when building an OCI launch request"
    );
    config.shape = Some("VM.Standard.E2.1.Micro".to_string());
    let request = CreateInstanceRequest::from_launch_config(&config).unwrap();
    assert_eq!(request.shape, "VM.Standard.E2.1.Micro");
    assert!(request.shape_config.is_none());
}

#[test]
fn keeps_free_tier_candidate_priority() {
    let planner = LaunchPlanner::new(FreeTierDefaults {
        shape_candidates: vec![
            DefaultShapeCandidate {
                shape: "VM.Standard.A1.Flex".to_string(),
                ocpus: 4,
                memory_in_gbs: 24,
            },
            DefaultShapeCandidate {
                shape: "VM.Standard.E2.1.Micro".to_string(),
                ocpus: 1,
                memory_in_gbs: 1,
            },
        ],
        assign_public_ip: true,
    });

    assert_eq!(
        planner.defaults.shape_candidates[0].shape,
        "VM.Standard.A1.Flex"
    );
    assert_eq!(planner.next_candidate_step(&vec![]), CandidateStep::FetchImages(0));
}

#[test]
fn canonicalizes_get_request_target() {
    assert_eq!(
        canonical_get_target("/instances", &[("compartmentId", "abc"), ("shape", "A1")]),
        "/instances?compartmentId=abc&shape=A1"
    );
}

#[test]
fn canonical_target_without_query_is_the_path() {
    assert_eq!(canonical_get_target("/subnets", &[]), "/subnets");
}

#[test]
fn free_tier_discovery_steps() {
    assert_eq!(
        first_availability_domain(&vec![]).unwrap_err(),
        DiscoveryError::NoAvailabilityDomain
    );
    let ads = vec![
        AvailabilityDomain { name: "AD-1".to_string() },
        AvailabilityDomain { name: "AD-2".to_string() },
    ];
    assert_eq!(first_availability_domain(&ads).unwrap(), "AD-1");
    let subnets = vec![
        Subnet { id: "s1".to_string(), lifecycle_state: "TERMINATED".to_string() },
        Subnet { id: "s2".to_string(), lifecycle_state: "AVAILABLE".to_string() },
        Subnet { id: "s3".to_string(), lifecycle_state: "AVAILABLE".to_string() },
    ];
    assert_eq!(first_available_subnet(&subnets).unwrap().id, "s2");
    assert_eq!(
        first_available_subnet(&vec![]).unwrap_err(),
        DiscoveryError::NoAvailableSubnet
    );
    let images = vec![ImageSummary { id: "i1".to_string(), lifecycle_state: "DISABLED".to_string() }];
    assert_eq!(first_available_image(&images).unwrap_err(), DiscoveryError::NoImage);
    let empty = LaunchPlanner::new(FreeTierDefaults { shape_candidates: vec![], assign_public_ip: false });
    assert_eq!(
        empty.next_candidate_step(&vec![]),
        CandidateStep::Exhausted(DiscoveryError::NoShapeCandidate)
    );
    assert_eq!(
        DiscoveryError::NoAvailableSubnet.message(),
        "no available subnet found in tenancy compartment"
    );
    assert_eq!(
        DiscoveryError::NoSshKey.message(),
        "failed to resolve default SSH public key for free-tier launch"
    );
}

#[test]
fn builds_the_free_tier_template() {
    let planner = LaunchPlanner::new(FreeTierDefaults::default());
    let shape = planner.defaults.shape_candidates[0].clone();
    let resolved = planner.build(
        "tenancy".to_string(),
        "AD-1".to_string(),
        Subnet { id: "s2".to_string(), lifecycle_state: "AVAILABLE".to_string() },
        shape,
        ImageSummary { id: "img".to_string(), lifecycle_state: "AVAILABLE".to_string() },
        "ssh-ed25519 AAA".to_string(),
    );
    assert_eq!(resolved.strategy, LaunchStrategy::FreeTierFallback);
    assert_eq!(resolved.launch_config.display_name, "oci-sniper-free-tier");
    assert_eq!(resolved.launch_config.shape.as_deref(), Some("VM.Standard.A1.Flex"));
    assert_eq!(resolved.launch_config.boot_volume_size_in_gbs, Some(200));
    assert_eq!(resolved.launch_config.boot_volume_vpus_per_gb, Some(120));
    assert!(resolved.launch_config.assign_private_dns_record);
    assert!(!resolved.launch_config.assign_public_ip);
    assert_eq!(resolved.selected_shape_ocpus, Some(4));
    assert_eq!(resolved.selected_shape_memory_in_gbs, Some(24));
    let explicit = explicit_launch(launch_config());
    assert_eq!(explicit.strategy, LaunchStrategy::ExplicitConfig);
    assert_eq!(explicit.selected_shape_ocpus, Some(4));
    assert_eq!(explicit.selected_shape_memory_in_gbs, Some(24));
}

#[test]
fn builds_hosts_urls_and_signing_strings() {
    assert_eq!(oci_host("ap-chuncheon-1"), "iaas.ap-chuncheon-1.oraclecloud.com");
    assert_eq!(
        oci_url("ap-seoul-1", "/instances"),
        "https://iaas.ap-seoul-1.oraclecloud.com/20160918/instances"
    );
    assert_eq!(
        signing_string("get", "/instances", "h", "d", None, None),
        "(request-target): get /instances\nhost: h\ndate: d"
    );
    assert_eq!(
        signing_string("post", "/instances", "h", "d", Some(12), Some("abc=")),
        "(request-target): post /instances\nhost: h\ndate: d\nx-content-sha256: abc=\ncontent-type: application/json\ncontent-length: 12"
    );
    assert_eq!(signed_headers(false), "(request-target) host date");
    assert_eq!(
        signed_headers(true),
        "(request-target) host date x-content-sha256 content-type content-length"
    );
    assert_eq!(key_id(&credentials()), "ocid1.tenancy.oc1..example/ocid1.user.oc1..example/aa:bb:cc");
    assert_eq!(
        authorization_header("k", "h", "s"),
        "Signature version=\"1\",keyId=\"k\",algorithm=\"rsa-sha256\",headers=\"h\",signature=\"s\""
    );
    // SHA-256 of the empty string, in base64
    assert_eq!(content_sha256(b""), "47DEQpj8HBSa+/TImW+5JCeuQeRkm5NMpJWZG3hSuFU=");
    assert_eq!(content_sha256(b"{}"), "RBNvo1WzZ4oRRq0W9+hknpT7T8If536DEMBg9hyq/4o=");
}

#[test]
fn signs_get_request_with_required_headers() {
    let private_key = rsa::RsaPrivateKey::new(&mut rand::thread_rng(), 2048).unwrap();
    let pem = private_key.to_pkcs8_pem(Default::default()).unwrap();

    let authorization = sign_request(
        &credentials(),
        pem.as_str(),
        "get",
        "/instances?compartmentId=ocid1.tenancy.oc1..example",
        "iaas.ap-chuncheon-1.oraclecloud.com",
        "Fri, 10 Apr 2026 03:50:52 GMT",
        None,
        None,
    )
    .unwrap();

    assert!(authorization.contains("algorithm=\"rsa-sha256\""));
    assert!(authorization.contains("headers=\"(request-target) host date\""));
    assert!(authorization.contains("signature=\""));

    let pkcs1 = private_key.to_pkcs1_pem(Default::default()).unwrap();
    let with_body = sign_request(
        &credentials(),
        pkcs1.as_str(),
        "post",
        "/instances",
        "h",
        "d",
        Some(2),
        Some("abc="),
    )
    .unwrap();
    assert!(with_body.contains(
        "headers=\"(request-target) host date x-content-sha256 content-type content-length\""
    ));
    assert_eq!(
        sign_request(&credentials(), "not a key", "get", "/", "h", "d", None, None).unwrap_err(),
        SignError::InvalidPrivateKey
    );
    assert_eq!(
        SignError::InvalidPrivateKey.message("/k.pem"),
        "failed to parse private key: /k.pem"
    );
}

#[test]
fn rejected_responses_name_status_and_body() {
    assert_eq!(response_body(200, "200 OK", "[]".to_string()), Ok("[]".to_string()));
    assert_eq!(response_body(204, "204 No Content", String::new()), Ok(String::new()));
    assert_eq!(
        response_body(401, "401 Unauthorized", "NotAuthenticated".to_string()),
        Err("OCI request failed with status 401 Unauthorized: NotAuthenticated".to_string())
    );
    assert!(response_body(300, "300 Multiple Choices", "x".to_string()).is_err());
    assert!(response_body(199, "199", "x".to_string()).is_err());
}

#[test]
fn signature_verifies_against_the_signing_string() {
    let private_key = rsa::RsaPrivateKey::new(&mut rand::thread_rng(), 2048).unwrap();
    let pem = private_key.to_pkcs8_pem(Default::default()).unwrap();
    let header = sign_request(
        &credentials(),
        pem.as_str(),
        "get",
        "/instances?compartmentId=abc",
        "iaas.ap-chuncheon-1.oraclecloud.com",
        "Fri, 10 Apr 2026 03:50:52 GMT",
        None,
        None,
    )
    .unwrap();
    let encoded = header
        .split("signature=\"")
        .nth(1)
        .unwrap()
        .trim_end_matches('"');
    let bytes = base64::engine::general_purpose::STANDARD.decode(encoded).unwrap();
    let signature = rsa::pkcs1v15::Signature::try_from(bytes.as_slice()).unwrap();
    let verifying_key =
        rsa::pkcs1v15::VerifyingKey::<sha2::Sha256>::new(rsa::RsaPublicKey::from(&private_key));
    let message = signing_string(
        "get",
        "/instances?compartmentId=abc",
        "iaas.ap-chuncheon-1.oraclecloud.com",
        "Fri, 10 Apr 2026 03:50:52 GMT",
        None,
        None,
    );
    assert!(verifying_key.verify(message.as_bytes(), &signature).is_ok());
    assert!(verifying_key.verify(b"another message", &signature).is_err());
}

fn image(id: &str, state: &str) -> ImageSummary {
    ImageSummary { id: id.to_string(), lifecycle_state: state.to_string() }
}

#[test]
fn tries_shape_candidates_in_priority_order() {
    let planner = LaunchPlanner::new(FreeTierDefaults::default());
    let a1 = planner.defaults.shape_candidates[0].clone();
    let e2 = planner.defaults.shape_candidates[1].clone();
    assert_eq!(planner.next_candidate_step(&vec![]), CandidateStep::FetchImages(0));
    let none_for_a1 = || vec![image("old", "DELETED")];
    assert_eq!(
        planner.next_candidate_step(&vec![none_for_a1()]),
        CandidateStep::FetchImages(1)
    );
    assert_eq!(
        planner.next_candidate_step(&vec![none_for_a1(), vec![image("e2img", "AVAILABLE")]]),
        CandidateStep::Chosen(e2, image("e2img", "AVAILABLE"))
    );
    assert_eq!(
        planner.next_candidate_step(&vec![vec![image("a", "PROVISIONING"), image("b", "AVAILABLE")]]),
        CandidateStep::Chosen(a1, image("b", "AVAILABLE"))
    );
    assert_eq!(
        planner.next_candidate_step(&vec![none_for_a1(), vec![]]),
        CandidateStep::Exhausted(DiscoveryError::NoImage)
    );
}
