use oci_sniper_rs::app::{
    bot_start, classify_error_kind, classify_test_api_error, launch_diagnostics,
    launch_strategy_label, runtime_summary, telegram_mode_label, test_api_failure, App, BotStart,
    StartError, TestApiErrorKind, TestApiFailure, TestApiJsonOutput,
};
use oci_sniper_rs::config::{
    AppConfig, AppSection, InstanceConfig, LaunchInstanceConfig, OciProfileConfig, ShapeConfig,
    TelegramConfig, TelegramMode,
};
use oci_sniper_rs::i18n::I18nCatalog;
use oci_sniper_rs::oci::{LaunchStrategy, ResolvedLaunch};

fn resolved() -> ResolvedLaunch {
    ResolvedLaunch {
        strategy: LaunchStrategy::FreeTierFallback,
        launch_config: LaunchInstanceConfig {
            availability_domain: "AD-1".to_string(),
            compartment_id: "ocid1.compartment.oc1..example".to_string(),
            subnet_id: "ocid1.subnet.oc1..example".to_string(),
            image_id: "ocid1.image.oc1..example".to_string(),
            display_name: "oci-sniper-free-tier".to_string(),
            ssh_authorized_keys: "ssh-rsa AAA".to_string(),
            shape: Some("VM.Standard.A1.Flex".to_string()),
            shape_config: Some(ShapeConfig {
                ocpus: 4,
                memory_in_gbs: 24,
            }),
            boot_volume_size_in_gbs: Some(200),
            boot_volume_vpus_per_gb: Some(120),
            assign_public_ip: true,
            assign_private_dns_record: true,
            assign_ipv6_ip: false,
            ipv6_subnet_cidr: None,
        },
        selected_shape_ocpus: Some(4),
        selected_shape_memory_in_gbs: Some(24),
    }
}

fn catalog() -> I18nCatalog {
    I18nCatalog::from_locale_files(
        "en",
        r#"{"cli.launch.strategy":"strategy={strategy}","cli.launch.ad":"ad={availability_domain}","cli.launch.subnet":"subnet={subnet_id}","cli.launch.image":"image={image_id}","cli.launch.shape_config":"{ocpus} OCPU / {memory_in_gbs} GB","cli.runtime.log_dir":"logs at {path}","cli.runtime.lock_file":"lock at {path}","cli.runtime.bot_mode":"mode {mode}","cli.runtime.webhook_url":"url {url}","cli.runtime.webhook_path":"path {path}","cli.test_api.error.discovery":"Discovery failed: {details}"}"#,
        r#"{"cli.test_api.error.discovery":"资源发现失败：{details}"}"#,
        "{}",
    )
    .unwrap()
}

fn config() -> AppConfig {
    AppConfig {
        app: AppSection::default(),
        oci: OciProfileConfig::with_defaults(),
        instance: InstanceConfig::default(),
        telegram: TelegramConfig::default(),
    }
}

#[test]
fn classifies_resource_discovery_errors() {
    assert_eq!(
        classify_error_kind("no available subnet found in tenancy compartment"),
        TestApiErrorKind::Discovery
    );
}

#[test]
fn classifies_network_errors() {
    assert_eq!(
        classify_error_kind("failed to execute OCI GET request"),
        TestApiErrorKind::Network
    );
}

#[test]
fn classifies_unauthorized_auth_errors() {
    assert_eq!(
        classify_error_kind("OCI request failed with status 401 Unauthorized: NotAuthenticated"),
        TestApiErrorKind::AuthUnauthorized
    );
}

#[test]
fn classifies_throttled_errors() {
    assert_eq!(
        classify_error_kind("OCI request failed with status 429 TooManyRequests"),
        TestApiErrorKind::Throttled
    );
}

#[test]
fn classifies_capacity_errors() {
    assert_eq!(
        classify_error_kind("OCI request failed with status 500: Out of capacity for shape"),
        TestApiErrorKind::Capacity
    );
}

#[test]
fn classifies_the_remaining_kinds() {
    assert_eq!(
        classify_error_kind("missing 'region' in OCI profile [X]"),
        TestApiErrorKind::Configuration
    );
    assert_eq!(
        classify_error_kind("OCI profile 'X' not found in /tmp/c"),
        TestApiErrorKind::Configuration
    );
    assert_eq!(
        classify_error_kind("OCI request failed with status 403 Forbidden: NotAuthorized"),
        TestApiErrorKind::AuthForbidden
    );
    assert_eq!(
        classify_error_kind("OCI request failed with status 400: LimitExceeded"),
        TestApiErrorKind::Quota
    );
    assert_eq!(
        classify_error_kind("OCI auth test request failed"),
        TestApiErrorKind::Auth
    );
    assert_eq!(classify_error_kind("something else"), TestApiErrorKind::Unknown);
    assert_eq!(classify_error_kind("NO OCI AVAILABILITY DOMAIN FOUND"), TestApiErrorKind::Discovery);
    assert_eq!(TestApiErrorKind::AuthForbidden.as_str(), "auth_forbidden");
    assert_eq!(TestApiErrorKind::Unknown.as_str(), "unknown");
}

#[test]
fn machine_readable_success_contains_launch_context() {
    let resolved = resolved();
    let output = TestApiJsonOutput::success("ap-chuncheon-1", "auth", &resolved, None);

    assert_eq!(output.status, "ok");
    assert_eq!(output.phase, "auth");
    assert_eq!(output.region.as_deref(), Some("ap-chuncheon-1"));
    let launch = output.resolved_launch.unwrap();
    assert_eq!(launch.strategy, "free-tier-fallback");
    assert_eq!(launch.ocpus, Some(4));
    assert_eq!(launch.memory_in_gbs, Some(24));
}

#[test]
fn machine_readable_failure_contains_kind_and_message() {
    let message = "OCI request failed with status 403 Forbidden: NotAuthorized";
    let output = TestApiJsonOutput::failure("auth", TestApiErrorKind::AuthForbidden, message);

    assert_eq!(output.status, "error");
    assert_eq!(output.phase, "auth");
    assert_eq!(output.kind.as_deref(), Some("auth_forbidden"));
    assert_eq!(
        output.message.as_deref(),
        Some("OCI request failed with status 403 Forbidden: NotAuthorized")
    );
    assert!(output.region.is_none());
}

#[test]
fn reports_errors_in_the_requested_locale() {
    let i18n = catalog();
    assert_eq!(
        classify_test_api_error("zh-CN", &i18n, "no OCI availability domain found"),
        "资源发现失败：no OCI availability domain found"
    );
    assert_eq!(
        classify_test_api_error("zh-TW", &i18n, "no OCI availability domain found"),
        "Discovery failed: no OCI availability domain found"
    );
    assert_eq!(
        classify_test_api_error("en", &i18n, "weird"),
        "cli.test_api.error.unknown"
    );
}

#[test]
fn describes_launches_and_runtime() {
    let i18n = catalog();
    assert_eq!(
        launch_diagnostics("en", &i18n, &resolved()),
        vec![
            "strategy=free-tier-fallback",
            "ad=AD-1",
            "subnet=ocid1.subnet.oc1..example",
            "image=ocid1.image.oc1..example",
            "4 OCPU / 24 GB",
        ]
    );
    let mut config = config();
    assert_eq!(
        runtime_summary("en", &i18n, &config),
        vec!["logs at logs", "lock at .oci-sniper.lock", "mode polling"]
    );
    config.telegram.mode = TelegramMode::Webhook;
    config.telegram.webhook_url = Some("https://h/w".to_string());
    config.telegram.webhook_path = Some("/w".to_string());
    assert_eq!(
        runtime_summary("en", &i18n, &config),
        vec!["logs at logs", "lock at .oci-sniper.lock", "mode webhook", "url https://h/w", "path /w"]
    );
    assert_eq!(telegram_mode_label(TelegramMode::Webhook), "webhook");
    assert_eq!(launch_strategy_label(LaunchStrategy::ExplicitConfig), "explicit");
}

#[test]
fn picks_locale_and_bot_start() {
    let mut config = config();
    assert_eq!(App::new("c.toml".to_string(), None).effective_locale(&config), "en");
    assert_eq!(
        App::new("c.toml".to_string(), Some("zh-TW".to_string())).effective_locale(&config),
        "zh-TW"
    );
    assert_eq!(bot_start(&config), Ok(BotStart::Disabled));
    config.telegram.bot_token = Some("t".to_string());
    assert_eq!(bot_start(&config), Ok(BotStart::Polling));
    config.telegram.mode = TelegramMode::Webhook;
    assert_eq!(bot_start(&config), Err(StartError::WebhookUrlMissing));
    config.telegram.webhook_url = Some("https://h/w".to_string());
    assert_eq!(bot_start(&config), Ok(BotStart::Webhook("https://h/w".to_string())));
}

#[test]
fn reports_a_failed_phase_as_json_or_as_text() {
    let i18n = catalog();
    match test_api_failure("en", &i18n, "discovery", true, "no available subnet found here") {
        TestApiFailure::Json(report) => {
            assert_eq!(report.status, "error");
            assert_eq!(report.phase, "discovery");
            assert_eq!(report.kind.as_deref(), Some("discovery"));
            assert_eq!(report.message.as_deref(), Some("no available subnet found here"));
            assert!(report.resolved_launch.is_none());
        }
        TestApiFailure::Message(_) => panic!("expected a JSON report"),
    }
    assert_eq!(
        test_api_failure("zh-CN", &i18n, "discovery", false, "no available subnet found here"),
        TestApiFailure::Message("资源发现失败：no available subnet found here".to_string())
    );
}
