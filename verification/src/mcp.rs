//! The MCP server's catalogue of read-only tools and the structured errors
//! its tools answer with.

use vstd::prelude::*;
use crate::client::retryable;
use crate::error::SkyTabError;
use crate::json::Json;
use crate::requests::is_text;
use crate::text::{append_chars, chars_of, nat_text, string_of, u64_text};

verus! {

/// The names of the read-only tools, in the order the server lists them.
pub open spec fn tool_names() -> Seq<Seq<char>> {
    seq![
        "skytab.accounts.preferences"@,
        "skytab.auth.login"@,
        "skytab.doctor"@,
        "skytab.insights.daily_brief"@,
        "skytab.insights.end_of_day"@,
        "skytab.insights.labor_vs_sales"@,
        "skytab.insights.payment_mix"@,
        "skytab.locations.list"@,
        "skytab.locations.show_default"@,
        "skytab.payments.transactions"@,
        "skytab.reports.activity_summary"@,
        "skytab.reports.discount_summary"@,
        "skytab.reports.hourly_sales"@,
        "skytab.reports.payroll"@,
        "skytab.reports.sales_summary_by_item"@,
        "skytab.reports.sales_summary_by_revenue_class"@,
        "skytab.reports.ticket_detail_closed"@,
        "skytab.reports.till_transaction"@,
        "skytab.request.get"@,
        "skytab.timeclock.shifts"@,
    ]
}

/// The names of the tools the MCP server offers, all of them read-only.
pub fn read_only_tool_names() -> (r: Vec<&'static str>)
    ensures
        r@.map_values(|s: &str| s@) == tool_names(),
{
    let mut v: Vec<&'static str> = Vec::new();
    v.push("skytab.accounts.preferences");
    v.push("skytab.auth.login");
    v.push("skytab.doctor");
    v.push("skytab.insights.daily_brief");
    v.push("skytab.insights.end_of_day");
    v.push("skytab.insights.labor_vs_sales");
    v.push("skytab.insights.payment_mix");
    v.push("skytab.locations.list");
    v.push("skytab.locations.show_default");
    v.push("skytab.payments.transactions");
    v.push("skytab.reports.activity_summary");
    v.push("skytab.reports.discount_summary");
    v.push("skytab.reports.hourly_sales");
    v.push("skytab.reports.payroll");
    v.push("skytab.reports.sales_summary_by_item");
    v.push("skytab.reports.sales_summary_by_revenue_class");
    v.push("skytab.reports.ticket_detail_closed");
    v.push("skytab.reports.till_transaction");
    v.push("skytab.request.get");
    v.push("skytab.timeclock.shifts");
    assert(v@.map_values(|s: &str| s@) =~= tool_names());
    v
}

/// The `kind` of a tool error.
pub open spec fn error_kind(err: SkyTabError) -> Seq<char> {
    match err {
        SkyTabError::MissingCredentials => "missing_credentials"@,
        SkyTabError::MissingCredentialsForAuthRefresh => "missing_credentials"@,
        SkyTabError::PartialEnvCredentials => "partial_env_credentials"@,
        SkyTabError::PartialEnvCredentialsForAuthRefresh => "partial_env_credentials"@,
        SkyTabError::CredentialStore(_) => "credential_store_error"@,
        SkyTabError::CredentialStoreForAuthRefresh(_) => "credential_store_error"@,
        SkyTabError::InvalidArgument(_) => "invalid_argument"@,
        SkyTabError::Api { .. } => "api_error"@,
        SkyTabError::Io(_) => "io_error"@,
        SkyTabError::Http(_) => "http_error"@,
        SkyTabError::Json(_) => "json_error"@,
        SkyTabError::TomlDe(_) => "toml_decode_error"@,
        SkyTabError::TomlSer(_) => "toml_encode_error"@,
    }
}

/// The `message` of a tool error.
pub open spec fn error_text(err: SkyTabError) -> Seq<char> {
    match err {
        SkyTabError::MissingCredentials =>
            "missing credentials; set SKYTAB_USERNAME/SKYTAB_PASSWORD or run `skytab auth set-credentials`"@,
        SkyTabError::MissingCredentialsForAuthRefresh =>
            "cached auth token is missing or expired and credentials are unavailable; set SKYTAB_USERNAME/SKYTAB_PASSWORD or run `skytab auth set-credentials`"@,
        SkyTabError::PartialEnvCredentials => "set both SKYTAB_USERNAME and SKYTAB_PASSWORD"@,
        SkyTabError::PartialEnvCredentialsForAuthRefresh =>
            "cached auth token is missing or expired and env credentials are incomplete; set both SKYTAB_USERNAME and SKYTAB_PASSWORD"@,
        SkyTabError::CredentialStore(m) => m@,
        SkyTabError::CredentialStoreForAuthRefresh(m) =>
            "cached auth token is missing or expired and credential store lookup failed: "@ + m@,
        SkyTabError::InvalidArgument(m) => m@,
        SkyTabError::Api { .. } => "SkyTab API request failed"@,
        SkyTabError::Io(m) => m@,
        SkyTabError::Http(m) => m@,
        SkyTabError::Json(m) => m@,
        SkyTabError::TomlDe(m) => m@,
        SkyTabError::TomlSer(m) => m@,
    }
}

/// The structured error of a tool: an object with `kind` and `message`, and
/// for API errors also `retryable` and `status` (keys in sorted order).
pub open spec fn tool_error(j: Json, err: SkyTabError) -> bool {
    match j {
        Json::Object(m) => {
            &&& m@.len() == (if err is Api {
                4nat
            } else {
                2nat
            })
            &&& m@[0].0@ == "kind"@
            &&& is_text(m@[0].1, error_kind(err))
            &&& m@[1].0@ == "message"@
            &&& is_text(m@[1].1, error_text(err))
            &&& err matches SkyTabError::Api { status, .. } ==> {
                &&& m@[2].0@ == "retryable"@
                &&& m@[2].1 == Json::Bool(retryable(status))
                &&& m@[3].0@ == "status"@
                &&& m@[3].1 matches Json::Number(t)
                &&& t@ == nat_text(status as nat)
            }
        },
        _ => false,
    }
}

fn text_member(key: &str, value: String) -> (r: (String, Json))
    ensures
        r.0@ == key@,
        is_text(r.1, value@),
{
    (String::from_str(key), Json::Str(value))
}

fn kind_and_message(kind: &str, message: String) -> (r: Vec<(String, Json)>)
    ensures
        r@.len() == 2,
        r@[0].0@ == "kind"@,
        is_text(r@[0].1, kind@),
        r@[1].0@ == "message"@,
        is_text(r@[1].1, message@),
{
    let mut m: Vec<(String, Json)> = Vec::new();
    m.push(text_member("kind", String::from_str(kind)));
    m.push(text_member("message", message));
    proof {
        reveal_strlit("kind");
        reveal_strlit("message");
    }
    m
}

/// `map_tool_error`.
pub fn map_tool_error(err: SkyTabError) -> (r: Json)
    ensures
        tool_error(r, err),
{
    let m = match err {
        SkyTabError::MissingCredentials => kind_and_message(
            "missing_credentials",
            String::from_str(
                "missing credentials; set SKYTAB_USERNAME/SKYTAB_PASSWORD or run `skytab auth set-credentials`",
            ),
        ),
        SkyTabError::MissingCredentialsForAuthRefresh => kind_and_message(
            "missing_credentials",
            String::from_str(
                "cached auth token is missing or expired and credentials are unavailable; set SKYTAB_USERNAME/SKYTAB_PASSWORD or run `skytab auth set-credentials`",
            ),
        ),
        SkyTabError::PartialEnvCredentials => kind_and_message(
            "partial_env_credentials",
            String::from_str("set both SKYTAB_USERNAME and SKYTAB_PASSWORD"),
        ),
        SkyTabError::PartialEnvCredentialsForAuthRefresh => kind_and_message(
            "partial_env_credentials",
            String::from_str(
                "cached auth token is missing or expired and env credentials are incomplete; set both SKYTAB_USERNAME and SKYTAB_PASSWORD",
            ),
        ),
        SkyTabError::CredentialStore(message) => kind_and_message(
            "credential_store_error",
            message,
        ),
        SkyTabError::CredentialStoreForAuthRefresh(message) => {
            let mut t = chars_of(
                "cached auth token is missing or expired and credential store lookup failed: ",
            );
            let mv = chars_of(message.as_str());
            append_chars(&mut t, &mv);
            kind_and_message("credential_store_error", string_of(&t))
        },
        SkyTabError::InvalidArgument(message) => kind_and_message("invalid_argument", message),
        SkyTabError::Api { status, .. } => {
            let mut m = kind_and_message(
                "api_error",
                String::from_str("SkyTab API request failed"),
            );
            let retry = status == 429 || (500 <= status && status <= 599);
            m.push((String::from_str("retryable"), Json::Bool(retry)));
            let digits = u64_text(status as u64);
            m.push((String::from_str("status"), Json::Number(string_of(&digits))));
            proof {
                reveal_strlit("retryable");
                reveal_strlit("status");
            }
            m
        },
        SkyTabError::Io(message) => kind_and_message("io_error", message),
        SkyTabError::Http(message) => kind_and_message("http_error", message),
        SkyTabError::Json(message) => kind_and_message("json_error", message),
        SkyTabError::TomlDe(message) => kind_and_message("toml_decode_error", message),
        SkyTabError::TomlSer(message) => kind_and_message("toml_encode_error", message),
    };
    Json::Object(m)
}

} // verus!
