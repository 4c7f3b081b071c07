use oci_sniper_rs::bot::{
    bot_token, escape_html, listen_address_for, webhook_listen_address, logs_reply, parse_command, plan_reply, tail_reply,
    webhook_registration, BotAction, BotError, LogsReply, ParsedCommand, TailReply,
};
use oci_sniper_rs::config::{
    AppConfig, AppSection, InstanceConfig, OciProfileConfig, TelegramConfig,
};

fn sample_config(token: Option<&str>) -> AppConfig {
    let mut telegram = TelegramConfig::default();
    telegram.bot_token = token.map(|t| t.to_string());
    AppConfig {
        app: AppSection::default(),
        oci: OciProfileConfig::with_defaults(),
        instance: InstanceConfig::default(),
        telegram,
    }
}

#[test]
fn parses_language_command() {
    assert_eq!(
        parse_command("/language zh-CN"),
        ParsedCommand::Language(Some("zh-CN".to_string()))
    );
}

#[test]
fn parses_logs_with_optional_limit() {
    assert_eq!(parse_command("/logs 3"), ParsedCommand::Logs(Some(3)));
    assert_eq!(parse_command("/logs"), ParsedCommand::Logs(None));
}

#[test]
fn escapes_html_for_tail_messages() {
    assert_eq!(escape_html("<tag>&"), "&lt;tag&gt;&amp;");
}

#[test]
fn parses_other_commands() {
    assert_eq!(parse_command("  /start  "), ParsedCommand::Start);
    assert_eq!(parse_command("/help extra"), ParsedCommand::Help);
    assert_eq!(parse_command("/language"), ParsedCommand::Language(None));
    assert_eq!(parse_command("/log_latest_tail 200"), ParsedCommand::LogLatestTail(Some(200)));
    assert_eq!(parse_command("/log_latest_tail"), ParsedCommand::LogLatestTail(None));
    assert_eq!(parse_command("/logs abc"), ParsedCommand::Logs(None));
    assert_eq!(parse_command("/logs +7"), ParsedCommand::Logs(Some(7)));
    assert_eq!(parse_command("/logs -1"), ParsedCommand::Logs(None));
    assert_eq!(
        parse_command("/logs 99999999999999999999999999"),
        ParsedCommand::Logs(None)
    );
    assert_eq!(parse_command(""), ParsedCommand::Unknown);
    assert_eq!(parse_command("   "), ParsedCommand::Unknown);
    assert_eq!(parse_command("hello"), ParsedCommand::Unknown);
    assert_eq!(parse_command("/Start"), ParsedCommand::Unknown);
}

#[test]
fn escape_leaves_plain_text_and_escapes_entities_once() {
    assert_eq!(escape_html("plain text"), "plain text");
    assert_eq!(escape_html("&amp;"), "&amp;amp;");
    assert_eq!(escape_html("a<b>c"), "a&lt;b&gt;c");
}

#[test]
fn plans_replies_for_each_command() {
    assert_eq!(
        plan_reply(&ParsedCommand::Help),
        BotAction::Reply("bot.command.help".to_string())
    );
    assert_eq!(
        plan_reply(&ParsedCommand::Start),
        BotAction::Reply("bot.command.help".to_string())
    );
    assert_eq!(
        plan_reply(&ParsedCommand::Language(None)),
        BotAction::Reply("bot.command.language.usage".to_string())
    );
    assert_eq!(
        plan_reply(&ParsedCommand::Language(Some("en".to_string()))),
        BotAction::SetLanguage("en".to_string())
    );
    assert_eq!(plan_reply(&ParsedCommand::Logs(Some(2))), BotAction::ArchiveLogs(Some(2)));
    assert_eq!(
        plan_reply(&ParsedCommand::LogLatestTail(None)),
        BotAction::SendTail { lines: 100, max_chars: 3800 }
    );
    assert_eq!(
        plan_reply(&ParsedCommand::LogLatestTail(Some(5))),
        BotAction::SendTail { lines: 5, max_chars: 3800 }
    );
    assert_eq!(
        plan_reply(&ParsedCommand::Unknown),
        BotAction::Reply("bot.command.unknown".to_string())
    );
}

#[test]
fn refuses_archives_over_fifty_mebibytes() {
    assert_eq!(
        logs_reply(50 * 1024 * 1024 + 1, None, 3),
        LogsReply::TooLarge("bot.command.logs.archive_too_large".to_string())
    );
    assert_eq!(
        logs_reply(50 * 1024 * 1024, None, 3),
        LogsReply::Send { key: "bot.command.logs.sent".to_string(), count: 3 }
    );
    assert_eq!(
        logs_reply(10, Some(1), 3),
        LogsReply::Send { key: "bot.command.logs.sent".to_string(), count: 1 }
    );
}

#[test]
fn wraps_tail_in_pre_or_reports_missing_logs() {
    assert_eq!(
        tail_reply(Some("a<b".to_string())),
        TailReply::Html("<pre>a&lt;b</pre>".to_string())
    );
    assert_eq!(
        tail_reply(Some(String::new())),
        TailReply::Message("bot.command.logs.latest_empty".to_string())
    );
    assert_eq!(
        tail_reply(None),
        TailReply::Message("bot.command.log.empty".to_string())
    );
}

#[test]
fn requires_a_token_for_telegram_calls() {
    let config = sample_config(None);
    let err = bot_token(&config, "run the bot").unwrap_err();
    assert_eq!(err, BotError::MissingToken("run the bot".to_string()));
    assert_eq!(err.message(), "telegram.bot_token is required to run the bot");
    let config = sample_config(Some("123:ABC"));
    assert_eq!(bot_token(&config, "run the bot").unwrap(), "123:ABC");
}

#[test]
fn validates_webhook_urls() {
    let config = sample_config(Some("123:ABC"));
    let (token, url) = webhook_registration(&config, "https://example.com/hook").unwrap();
    assert_eq!(token, "123:ABC");
    assert_eq!(url.as_str(), "https://example.com/hook");
    assert_eq!(
        webhook_registration(&config, "not a url").unwrap_err(),
        BotError::InvalidWebhookUrl
    );
    assert_eq!(BotError::InvalidWebhookUrl.message(), "invalid webhook URL");
    let no_token = sample_config(None);
    assert_eq!(
        webhook_registration(&no_token, "https://example.com/hook").unwrap_err(),
        BotError::MissingToken("set a webhook".to_string())
    );
}

#[test]
fn escaped_tail_has_no_angle_brackets() {
    let escaped = escape_html("</pre><b>x</b> & <<>>");
    assert!(!escaped.contains('<'));
    assert!(!escaped.contains('>'));
    assert_eq!(escaped, "&lt;/pre&gt;&lt;b&gt;x&lt;/b&gt; &amp; &lt;&lt;&gt;&gt;");
}

#[test]
fn listen_address_prefers_configured_address() {
    let mut telegram = TelegramConfig::default();
    telegram.webhook_listen = Some("127.0.0.1:8443".to_string());
    telegram.webhook_url = Some("https://example.com:9000/webhook".to_string());
    assert_eq!(webhook_listen_address(&telegram), "127.0.0.1:8443");
}

#[test]
fn listen_address_takes_port_of_webhook_url() {
    let mut telegram = TelegramConfig::default();
    telegram.webhook_url = Some("https://example.com:9000/webhook".to_string());
    assert_eq!(webhook_listen_address(&telegram), "0.0.0.0:9000");
}

#[test]
fn listen_address_defaults_to_8443() {
    let mut telegram = TelegramConfig::default();
    assert_eq!(webhook_listen_address(&telegram), "0.0.0.0:8443");
    telegram.webhook_url = Some("http://example.com:80/webhook".to_string());
    assert_eq!(webhook_listen_address(&telegram), "0.0.0.0:8443");
    telegram.webhook_url = Some("https://example.com/webhook".to_string());
    assert_eq!(webhook_listen_address(&telegram), "0.0.0.0:8443");
    telegram.webhook_url = Some("not a url".to_string());
    assert_eq!(webhook_listen_address(&telegram), "0.0.0.0:8443");
    assert_eq!(listen_address_for(&None, Some(80)), "0.0.0.0:80");
    assert_eq!(listen_address_for(&None, None), "0.0.0.0:8443");
    assert_eq!(listen_address_for(&Some("[::1]:1".to_string()), Some(80)), "[::1]:1");
}

#[test]
fn reads_back_any_count() {
    for n in [0usize, 7, 10, 42, 1000, usize::MAX] {
        assert_eq!(parse_command(&format!("/logs {n}")), ParsedCommand::Logs(Some(n)));
        assert_eq!(
            parse_command(&format!("/log_latest_tail {n}")),
            ParsedCommand::LogLatestTail(Some(n))
        );
    }
    assert_eq!(parse_command("/logs 18446744073709551616"), ParsedCommand::Logs(None));
    assert_eq!(parse_command("/logs +5"), ParsedCommand::Logs(Some(5)));
    assert_eq!(parse_command("/logs -5"), ParsedCommand::Logs(None));
}
