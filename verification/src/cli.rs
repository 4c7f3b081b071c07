//! The command line: a configuration path, an optional display language and
//! one of three commands.
use vstd::prelude::*;

use crate::config::WebhookChange;
use crate::text::copy_str;

verus! {

/// The parsed command line.
#[derive(Debug, PartialEq, Eq)]
pub struct Cli {
    pub config: String,
    pub lang: Option<String>,
    pub command: Commands,
}

/// The subcommands.
#[derive(Debug, PartialEq, Eq)]
pub enum Commands {
    Run(RunArgs),
    TestApi(TestApiArgs),
    BotWebhook(BotWebhookArgs),
}

/// `run`: print the plan, and unless it is a dry run, start the runtime.
#[derive(Debug, Clone, Copy, PartialEq, Eq)]
pub struct RunArgs {
    pub dry_run: bool,
}

/// `test-api`: one signed request, optionally with the launch payload, in
/// text or JSON.
#[derive(Debug, Clone, Copy, PartialEq, Eq)]
pub struct TestApiArgs {
    pub dump_launch_payload: bool,
    pub json: bool,
}

/// `bot-webhook`: set a webhook URL or clear it.
#[derive(Debug, PartialEq, Eq)]
pub struct BotWebhookArgs {
    pub set: Option<String>,
    pub clear: bool,
}

/// A command line that asks for no webhook change or for two.
#[derive(Debug, PartialEq, Eq)]
pub enum CliError {
    WebhookChoice,
}

impl CliError {
    pub fn message(&self) -> (r: String)
        ensures
            r@ == "either --set <URL> or --clear must be specified"@,
    {
        copy_str("either --set <URL> or --clear must be specified")
    }
}

impl BotWebhookArgs {
    /// The change asked for: exactly one of `--set <URL>` and `--clear`.
    pub fn change(&self) -> (r: Result<WebhookChange, CliError>)
        ensures
            match (self.set, self.clear) {
                (Some(url), false) => r == Ok::<WebhookChange, CliError>(WebhookChange::SetUrl(url)),
                (None, true) => r == Ok::<WebhookChange, CliError>(WebhookChange::Clear),
                _ => r == Err::<WebhookChange, CliError>(CliError::WebhookChoice),
            },
    {
        match (&self.set, self.clear) {
            (Some(url), false) => Ok(WebhookChange::SetUrl(url.clone())),
            (None, true) => Ok(WebhookChange::Clear),
            _ => Err(CliError::WebhookChoice),
        }
    }
}

} // verus!
