//! The commands: what a text asks for, who may ask for it, and what is replied.
//!
//! A command is decided in two steps, because two of the three that do more than reply need
//! something from outside first: an answer of the search provider, or the output of the
//! download tool. `process_command` says what is to be done next; the functions that end in
//! `_reply` turn what came back into the message for the requestor.

use vstd::prelude::*;
use crate::models::Torrent;
use crate::search::{results_reply, results_text};
use crate::status::{parse_transmission_output, report_text};
use crate::text::{
    contains, eq_ignore_ascii_case, has_part, has_prefix, same_ignoring_case, same_text, slice,
    starts_with, to_chars, to_text, trim, trimmed,
};

verus! {

/// What comes from the configuration of the host. Either value may be missing.
#[derive(Debug)]
pub struct Config {
    /// The address of the search provider; the query is appended to it.
    pub api_url: Option<String>,
    /// What is appended to a link before it goes to the download tool.
    pub params: Option<String>,
}

/// What a text asks for.
#[derive(Debug)]
pub enum CommandKind {
    /// A search for the query.
    Search(String),
    /// The download of the item.
    Download(String),
    Status,
    Ping,
    Unknown,
}

/// What a text asks for, with the query or the item as a text.
pub enum KindModel {
    Search(Seq<char>),
    Download(Seq<char>),
    Status,
    Ping,
    Unknown,
}

impl View for CommandKind {
    type V = KindModel;

    open spec fn view(&self) -> KindModel {
        match self {
            CommandKind::Search(query) => KindModel::Search(query@),
            CommandKind::Download(item) => KindModel::Download(item@),
            CommandKind::Status => KindModel::Status,
            CommandKind::Ping => KindModel::Ping,
            CommandKind::Unknown => KindModel::Unknown,
        }
    }
}

/// What is to be done for a command.
#[derive(Debug)]
pub enum Step {
    /// Nothing: no reply is sent.
    Done,
    /// Send the message to the recipient.
    Reply { recipient: String, message: String },
    /// Send the notice to the recipient, fetch the address, and send the recipient
    /// `search_reply` of what came back.
    Search { recipient: String, notice: String, url: String },
    /// Hand the target to the download tool and send the recipient `download_reply` of what
    /// came back.
    Download { recipient: String, target: String },
    /// Ask the download tool for its list and send the recipient `status_reply` of what came
    /// back.
    Status { recipient: String },
}

/// A step as texts.
pub enum StepModel {
    Done,
    Reply { recipient: Seq<char>, message: Seq<char> },
    Search { recipient: Seq<char>, notice: Seq<char>, url: Seq<char> },
    Download { recipient: Seq<char>, target: Seq<char> },
    Status { recipient: Seq<char> },
}

impl View for Step {
    type V = StepModel;

    open spec fn view(&self) -> StepModel {
        match self {
            Step::Done => StepModel::Done,
            Step::Reply { recipient, message } => StepModel::Reply {
                recipient: recipient@,
                message: message@,
            },
            Step::Search { recipient, notice, url } => StepModel::Search {
                recipient: recipient@,
                notice: notice@,
                url: url@,
            },
            Step::Download { recipient, target } => StepModel::Download {
                recipient: recipient@,
                target: target@,
            },
            Step::Status { recipient } => StepModel::Status { recipient: recipient@ },
        }
    }
}

/// How a request to the search provider ended.
#[derive(Debug)]
pub enum SearchOutcome {
    /// The provider could not be reached.
    Unreachable,
    /// The provider answered, and its answer could not be read to the end.
    Unreadable,
    /// The answer is no list of results.
    Malformed,
    Results(Vec<Torrent>),
}

/// How a run of the download tool ended.
#[derive(Debug)]
pub enum ToolOutcome {
    /// The tool could not be started.
    NotRun,
    /// The tool ran: whether it reported success, and what it printed.
    Exited { success: bool, stdout: String, stderr: String },
}

/// The text of an optional string.
pub open spec fn optional_text(s: Option<String>) -> Option<Seq<char>> {
    match s {
        Some(t) => Some(t@),
        None => None,
    }
}

/// What `text` asks for. The text is trimmed first. The two commands with an argument are
/// told by their first word and the blank behind it, in exactly this spelling, and the
/// argument is trimmed; the two without are told by their name alone, in any case of letters.
/// The first of the four that fits decides.
pub open spec fn kind_of(text: Seq<char>) -> KindModel {
    let t = trimmed(text);
    if has_prefix(t, "Links for "@) {
        KindModel::Search(trimmed(t.skip("Links for "@.len() as int)))
    } else if has_prefix(t, "download "@) {
        KindModel::Download(trimmed(t.skip("download "@.len() as int)))
    } else if same_ignoring_case(t, "status"@) {
        KindModel::Status
    } else if same_ignoring_case(t, "ping"@) {
        KindModel::Ping
    } else {
        KindModel::Unknown
    }
}

/// The step for a search: without the address of the provider, the reply that the
/// configuration lacks it; with it, the search at the address followed by the query.
pub open spec fn links_step(api_url: Option<Seq<char>>, recipient: Seq<char>, query: Seq<char>) -> StepModel {
    match api_url {
        Some(base) => StepModel::Search {
            recipient,
            notice: "🔍 Searching for '"@ + query + "'..."@,
            url: base + query,
        },
        None => StepModel::Reply {
            recipient,
            message: "❌ Error: System configuration missing (API_URL)."@,
        },
    }
}

/// The step for a download: without the parameters, the reply that the configuration lacks
/// them; with them, the download of the link followed by the parameters.
pub open spec fn download_step(params: Option<Seq<char>>, recipient: Seq<char>, link: Seq<char>) -> StepModel {
    match params {
        Some(suffix) => StepModel::Download { recipient, target: link + suffix },
        None => StepModel::Reply {
            recipient,
            message: "❌ Error: System configuration missing (PARAMS)."@,
        },
    }
}

/// The step for a status request: the owner gets the status; anyone else gets the reply that
/// only the owner may see it, and the tool is not asked.
pub open spec fn status_step(requestor: Seq<char>, owner: Seq<char>) -> StepModel {
    if requestor == owner {
        StepModel::Status { recipient: requestor }
    } else {
        StepModel::Reply {
            recipient: requestor,
            message: "⛔ Unauthorized: Only the bot owner can view status."@,
        }
    }
}

/// The step for the command `text` that `recipient` sent to the bridge of `account`.
pub open spec fn step_for(
    api_url: Option<Seq<char>>,
    params: Option<Seq<char>>,
    account: Seq<char>,
    recipient: Seq<char>,
    text: Seq<char>,
) -> StepModel {
    match kind_of(text) {
        KindModel::Search(query) => links_step(api_url, recipient, query),
        KindModel::Download(item) => download_step(params, recipient, item),
        KindModel::Status => status_step(recipient, account),
        KindModel::Ping => StepModel::Reply { recipient, message: "Pong! 🏓"@ },
        KindModel::Unknown => StepModel::Done,
    }
}

/// The message that ends a search.
pub open spec fn search_text(outcome: SearchOutcome) -> Seq<char> {
    match outcome {
        SearchOutcome::Unreachable => "Error connecting to search API."@,
        SearchOutcome::Unreadable => "Error reading response from API."@,
        SearchOutcome::Malformed => "Error parsing search results."@,
        SearchOutcome::Results(ts) => results_text(ts@),
    }
}

/// The message that ends a download request. A run that reports success counts as an added
/// download if its output holds the word `success`.
pub open spec fn download_text(outcome: ToolOutcome) -> Seq<char> {
    match outcome {
        ToolOutcome::NotRun => "❌ Error: Could not execute 'transmission-remote'. Is it installed?"@,
        ToolOutcome::Exited { success, stdout, stderr } => if !success {
            "❌ Failed to add torrent.\nError: "@ + trimmed(stderr@)
        } else if has_part(stdout@, "success"@) {
            "✅ Torrent successfully added to Transmission."@
        } else {
            "⚠️ Command ran, but response was unclear."@
        },
    }
}

/// The message that ends a status request.
pub open spec fn status_text(outcome: ToolOutcome) -> Seq<char> {
    match outcome {
        ToolOutcome::NotRun => "❌ Could not run status command."@,
        ToolOutcome::Exited { success, stdout, stderr } => if !success {
            "❌ Error checking status:\n"@ + stderr@
        } else if report_text(stdout@).len() == 0 {
            "ℹ️ No active torrents found."@
        } else {
            "📊 **Torrent Status:**\n\n"@ + report_text(stdout@)
        },
    }
}

/// Tells what `text` asks for.
pub fn classify(text: &str) -> (kind: CommandKind)
    ensures
        kind@ == kind_of(text@),
{
    let all = to_chars(text);
    let t = trim(&all);
    let links = to_chars("Links for ");
    if starts_with(&t, &links) {
        let rest = slice(&t, links.len(), t.len());
        return CommandKind::Search(to_text(&trim(&rest)));
    }
    let download = to_chars("download ");
    if starts_with(&t, &download) {
        let rest = slice(&t, download.len(), t.len());
        return CommandKind::Download(to_text(&trim(&rest)));
    }
    if eq_ignore_ascii_case(&t, &to_chars("status")) {
        return CommandKind::Status;
    }
    if eq_ignore_ascii_case(&t, &to_chars("ping")) {
        return CommandKind::Ping;
    }
    CommandKind::Unknown
}

/// Starts a search for `query`.
pub fn handle_links_command(config: &Config, recipient: &str, query: &str) -> (step: Step)
    ensures
        step@ == links_step(optional_text(config.api_url), recipient@, query@),
{
    match &config.api_url {
        Some(base) => {
            let mut notice = String::from_str("🔍 Searching for '");
            notice.append(query);
            notice.append("'...");
            let mut url = String::from_str(base.as_str());
            url.append(query);
            Step::Search { recipient: String::from_str(recipient), notice, url }
        },
        None => Step::Reply {
            recipient: String::from_str(recipient),
            message: String::from_str("❌ Error: System configuration missing (API_URL)."),
        },
    }
}

/// Starts the download of `link`.
pub fn handle_download_command(config: &Config, recipient: &str, link: &str) -> (step: Step)
    ensures
        step@ == download_step(optional_text(config.params), recipient@, link@),
{
    match &config.params {
        Some(suffix) => {
            let mut target = String::from_str(link);
            target.append(suffix.as_str());
            Step::Download { recipient: String::from_str(recipient), target }
        },
        None => Step::Reply {
            recipient: String::from_str(recipient),
            message: String::from_str("❌ Error: System configuration missing (PARAMS)."),
        },
    }
}

/// Decides whether `requestor` may see the status, which only the owner of the account may.
pub fn handle_status_command(requestor: &str, owner_account: &str) -> (step: Step)
    ensures
        step@ == status_step(requestor@, owner_account@),
{
    if !same_text(requestor, owner_account) {
        return Step::Reply {
            recipient: String::from_str(requestor),
            message: String::from_str("⛔ Unauthorized: Only the bot owner can view status."),
        };
    }
    Step::Status { recipient: String::from_str(requestor) }
}

/// Decides what is to be done for the command `text` that `recipient` sent to the bridge of
/// `account`. A text that is no command gets no reply.
pub fn process_command(config: &Config, account: &str, recipient: &str, text: &str) -> (step: Step)
    ensures
        step@ == step_for(
            optional_text(config.api_url),
            optional_text(config.params),
            account@,
            recipient@,
            text@,
        ),
{
    match classify(text) {
        CommandKind::Search(query) => handle_links_command(config, recipient, query.as_str()),
        CommandKind::Download(item) => handle_download_command(config, recipient, item.as_str()),
        CommandKind::Status => handle_status_command(recipient, account),
        CommandKind::Ping => Step::Reply {
            recipient: String::from_str(recipient),
            message: String::from_str("Pong! 🏓"),
        },
        CommandKind::Unknown => Step::Done,
    }
}

/// Writes the message that ends a search.
pub fn search_reply(outcome: &SearchOutcome) -> (r: String)
    ensures
        r@ == search_text(*outcome),
{
    match outcome {
        SearchOutcome::Unreachable => String::from_str("Error connecting to search API."),
        SearchOutcome::Unreadable => String::from_str("Error reading response from API."),
        SearchOutcome::Malformed => String::from_str("Error parsing search results."),
        SearchOutcome::Results(ts) => results_reply(ts),
    }
}

/// Writes the message that ends a download request.
pub fn download_reply(outcome: &ToolOutcome) -> (r: String)
    ensures
        r@ == download_text(*outcome),
{
    match outcome {
        ToolOutcome::NotRun => String::from_str(
            "❌ Error: Could not execute 'transmission-remote'. Is it installed?",
        ),
        ToolOutcome::Exited { success, stdout, stderr } => {
            if !*success {
                let mut r = String::from_str("❌ Failed to add torrent.\nError: ");
                let reason = to_text(&trim(&to_chars(stderr.as_str())));
                r.append(reason.as_str());
                r
            } else if contains(&to_chars(stdout.as_str()), &to_chars("success")) {
                String::from_str("✅ Torrent successfully added to Transmission.")
            } else {
                String::from_str("⚠️ Command ran, but response was unclear.")
            }
        },
    }
}

/// Writes the message that ends a status request.
pub fn status_reply(outcome: &ToolOutcome) -> (r: String)
    ensures
        r@ == status_text(*outcome),
{
    match outcome {
        ToolOutcome::NotRun => String::from_str("❌ Could not run status command."),
        ToolOutcome::Exited { success, stdout, stderr } => {
            if !*success {
                let mut r = String::from_str("❌ Error checking status:\n");
                r.append(stderr.as_str());
                r
            } else {
                let report = parse_transmission_output(stdout.as_str());
                if report.as_str().is_empty() {
                    String::from_str("ℹ️ No active torrents found.")
                } else {
                    let mut r = String::from_str("📊 **Torrent Status:**\n\n");
                    r.append(report.as_str());
                    r
                }
            }
        },
    }
}

} // verus!
