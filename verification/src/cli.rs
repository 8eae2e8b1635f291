//! The command-line surface: global options, commands and their arguments.

use vstd::prelude::*;
use std::path::PathBuf;
use crate::error::SkyTabError;

verus! {

/// Global options and the command to run.
pub struct Cli {
    pub json: bool,
    pub format: Option<OutputFormat>,
    pub output: Option<PathBuf>,
    pub verbose: u8,
    pub base_url: Option<String>,
    pub command: Commands,
}

/// Top-level commands.
pub enum Commands {
    Auth(AuthArgs),
    Locations(LocationsArgs),
    Accounts(AccountsArgs),
    Reports(ReportsArgs),
    Timeclock(TimeclockArgs),
    Payments(PaymentsArgs),
    Request(RequestArgs),
    Completion(CompletionArgs),
    Doctor,
}

/// Arguments of `completion`.
pub struct CompletionArgs {
    pub shell: CompletionShell,
}

/// Shells for which completion scripts can be generated.
#[derive(Clone, Copy)]
pub enum CompletionShell {
    Bash,
    Zsh,
    Fish,
}

/// Arguments of `auth`.
pub struct AuthArgs {
    pub command: AuthSubcommand,
}

/// Subcommands of `auth`.
pub enum AuthSubcommand {
    Login,
    SetCredentials {
        username: String,
        password: Option<String>,
        prompt_password: bool,
        base_url: Option<String>,
    },
}

/// Arguments of `locations`.
pub struct LocationsArgs {
    pub command: LocationsSubcommand,
}

/// Subcommands of `locations`.
pub enum LocationsSubcommand {
    List,
    SetDefault { location_id: i64 },
    ShowDefault,
    ClearDefault,
}

/// Arguments of `accounts`.
pub struct AccountsArgs {
    pub command: AccountsSubcommand,
}

/// Subcommands of `accounts`.
pub enum AccountsSubcommand {
    Preferences { account_id: String },
}

/// Arguments of `reports`.
pub struct ReportsArgs {
    pub command: ReportsSubcommand,
}

/// Subcommands of `reports`.
#[allow(inconsistent_fields)]
pub enum ReportsSubcommand {
    ActivitySummary { start: String, end: String, location: Option<i64> },
    DiscountSummary { start: String, end: String, location: Vec<i64> },
    HourlySales { start: String, end: String, location: Vec<i64> },
    TicketDetailClosed { start: String, end: String, location: Vec<i64> },
    SalesSummaryByItem { start: String, end: String, location: Vec<i64> },
    SalesSummaryByRevenueClass { start: String, end: String, location: Vec<i64> },
    TillTransaction { start: String, end: String, location: Vec<i64> },
    Payroll { start: String, end: String, location: Vec<i64> },
}

/// Arguments of `timeclock`.
pub struct TimeclockArgs {
    pub command: TimeclockSubcommand,
}

/// Subcommands of `timeclock`.
pub enum TimeclockSubcommand {
    Shifts {
        location_id: Option<i64>,
        start: String,
        end: String,
        order: String,
        limit: usize,
    },
}

/// Arguments of `payments`.
pub struct PaymentsArgs {
    pub command: PaymentsSubcommand,
}

/// Subcommands of `payments`.
pub enum PaymentsSubcommand {
    Transactions {
        start: String,
        end: String,
        location: Vec<i64>,
        order_type: Option<String>,
    },
}

/// HTTP methods of the generic request mode.
#[derive(Clone, Copy)]
pub enum HttpMethod {
    Get,
    Post,
    Put,
    Patch,
    Delete,
}

/// Structured output formats.
#[derive(Clone, Copy)]
pub enum OutputFormat {
    Json,
    Csv,
    Ndjson,
}

/// Arguments of `request`.
pub struct RequestArgs {
    pub method: HttpMethod,
    pub path: String,
    pub query: Vec<String>,
    pub body: Option<String>,
    pub allow_write: bool,
}

/// Whether a request method changes data on the server: all but `get`.
pub open spec fn mutating(method: HttpMethod) -> bool {
    !(method is Get)
}

/// The refusal of a mutating request sent without `--allow-write`.
pub open spec fn write_refused_message() -> Seq<char> {
    "mutating request methods (post, put, patch, delete) require --allow-write"@
}

/// The write guard of `request`: `get` always goes; `post`, `put`, `patch`
/// and `delete` go only with `--allow-write`.
pub fn check_request_allowed(method: HttpMethod, allow_write: bool) -> (r: Result<
    (),
    SkyTabError,
>)
    ensures
        r is Err <==> (mutating(method) && !allow_write),
        r matches Err(e) ==> (e matches SkyTabError::InvalidArgument(m) && m@
            == write_refused_message()),
{
    match method {
        HttpMethod::Get => Ok(()),
        _ => if allow_write {
            Ok(())
        } else {
            Err(
                SkyTabError::InvalidArgument(
                    String::from_str(
                        "mutating request methods (post, put, patch, delete) require --allow-write",
                    ),
                ),
            )
        },
    }
}

} // verus!
