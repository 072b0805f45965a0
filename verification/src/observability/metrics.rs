//! The metrics that the service reports, and their registration with the
//! installed metrics recorder.
use vstd::prelude::*;
use crate::observability::recorder::{describe_counter, describe_gauge, describe_histogram, DescribeCalls};

verus! {

/// What a metric measures in.
#[derive(Clone, Copy, Debug, PartialEq, Eq, Structural)]
pub enum MetricUnit {
    Count,
    Seconds,
    Bytes,
}

/// The kind of a metric; gauges and histograms carry a unit.
#[derive(Clone, Copy, Debug, PartialEq, Eq, Structural)]
pub enum MetricKind {
    Counter,
    Gauge(MetricUnit),
    Histogram(MetricUnit),
}

/// A metric with the text that describes it.
#[derive(Clone, Copy, Debug)]
pub struct MetricDescription {
    pub kind: MetricKind,
    pub name: &'static str,
    pub description: &'static str,
}

/// [`MetricDescription`] as characters.
pub struct MetricDescriptionView {
    pub kind: MetricKind,
    pub name: Seq<char>,
    pub description: Seq<char>,
}

impl View for MetricDescription {
    type V = MetricDescriptionView;

    open spec fn view(&self) -> MetricDescriptionView {
        MetricDescriptionView { kind: self.kind, name: self.name@, description: self.description@ }
    }
}

/// Every metric that the service reports, in the order in which it is
/// registered.
pub open spec fn metrics_described() -> Seq<MetricDescriptionView> {
    seq![
        MetricDescriptionView { kind: MetricKind::Counter, name: "claude_chat_matrix_messages_received_total"@, description: "Matrix messages received"@ },
        MetricDescriptionView { kind: MetricKind::Counter, name: "claude_chat_matrix_messages_sent_total"@, description: "Matrix messages sent"@ },
        MetricDescriptionView { kind: MetricKind::Counter, name: "claude_chat_matrix_sync_errors_total"@, description: "Matrix sync errors"@ },
        MetricDescriptionView { kind: MetricKind::Histogram(MetricUnit::Seconds), name: "claude_chat_matrix_sync_duration_seconds"@, description: "Sync duration"@ },
        MetricDescriptionView { kind: MetricKind::Counter, name: "claude_chat_matrix_api_requests_total"@, description: "Matrix API requests"@ },
        MetricDescriptionView { kind: MetricKind::Histogram(MetricUnit::Seconds), name: "claude_chat_matrix_api_duration_seconds"@, description: "API request duration"@ },
        MetricDescriptionView { kind: MetricKind::Counter, name: "claude_chat_auth_checks_total"@, description: "Auth checks performed"@ },
        MetricDescriptionView { kind: MetricKind::Counter, name: "claude_chat_session_started_total"@, description: "Assistant sessions started"@ },
        MetricDescriptionView { kind: MetricKind::Counter, name: "claude_chat_session_completed_total"@, description: "Assistant sessions completed"@ },
        MetricDescriptionView { kind: MetricKind::Gauge(MetricUnit::Count), name: "claude_chat_session_active"@, description: "Active assistant sessions"@ },
        MetricDescriptionView { kind: MetricKind::Histogram(MetricUnit::Seconds), name: "claude_chat_session_duration_seconds"@, description: "Session duration"@ },
        MetricDescriptionView { kind: MetricKind::Histogram(MetricUnit::Bytes), name: "claude_chat_session_output_bytes"@, description: "Session output size"@ },
        MetricDescriptionView { kind: MetricKind::Counter, name: "claude_chat_session_resume_total"@, description: "Session resume attempts"@ },
        MetricDescriptionView { kind: MetricKind::Counter, name: "claude_chat_command_executed_total"@, description: "Subprocess commands executed"@ },
        MetricDescriptionView { kind: MetricKind::Histogram(MetricUnit::Seconds), name: "claude_chat_command_duration_seconds"@, description: "Command duration"@ },
        MetricDescriptionView { kind: MetricKind::Histogram(MetricUnit::Bytes), name: "claude_chat_command_stdout_bytes"@, description: "Command stdout size"@ },
        MetricDescriptionView { kind: MetricKind::Counter, name: "claude_chat_bwrap_spawns_total"@, description: "Bubblewrap sandbox spawns"@ },
        MetricDescriptionView { kind: MetricKind::Counter, name: "claude_chat_bwrap_failures_total"@, description: "Bubblewrap failures"@ },
        MetricDescriptionView { kind: MetricKind::Gauge(MetricUnit::Bytes), name: "claude_chat_store_bytes"@, description: "Agent store size"@ },
        MetricDescriptionView { kind: MetricKind::Counter, name: "claude_chat_mcp_secret_requests_total"@, description: "MCP secret requests"@ },
        MetricDescriptionView { kind: MetricKind::Counter, name: "claude_chat_mcp_secret_decrypt_errors_total"@, description: "MCP decrypt errors"@ },
        MetricDescriptionView { kind: MetricKind::Counter, name: "claude_chat_mcp_requests_total"@, description: "MCP requests total"@ },
        MetricDescriptionView { kind: MetricKind::Histogram(MetricUnit::Seconds), name: "claude_chat_mcp_duration_seconds"@, description: "MCP request duration"@ },
        MetricDescriptionView { kind: MetricKind::Counter, name: "claude_chat_agent_messages_sent_total"@, description: "Inter-agent messages sent"@ },
        MetricDescriptionView { kind: MetricKind::Counter, name: "claude_chat_agent_messages_received_total"@, description: "Inter-agent messages received"@ },
        MetricDescriptionView { kind: MetricKind::Histogram(MetricUnit::Seconds), name: "claude_chat_agent_roundtrip_seconds"@, description: "Inter-agent roundtrip"@ },
        MetricDescriptionView { kind: MetricKind::Counter, name: "claude_chat_agent_tool_calls_total"@, description: "Agent tool calls"@ },
        MetricDescriptionView { kind: MetricKind::Counter, name: "claude_chat_agent_queue_rejected_total"@, description: "Agent queue rejected"@ },
        MetricDescriptionView { kind: MetricKind::Counter, name: "claude_chat_agent_loop_rejected_total"@, description: "Agent loop rejected"@ },
        MetricDescriptionView { kind: MetricKind::Gauge(MetricUnit::Count), name: "claude_chat_agent_pending_messages"@, description: "Pending messages"@ },
        MetricDescriptionView { kind: MetricKind::Gauge(MetricUnit::Seconds), name: "claude_chat_agent_processing_lag_seconds"@, description: "Processing lag"@ },
        MetricDescriptionView { kind: MetricKind::Counter, name: "claude_chat_agent_messages_processed_total"@, description: "Messages processed"@ },
        MetricDescriptionView { kind: MetricKind::Counter, name: "claude_chat_http_requests_total"@, description: "HTTP requests"@ },
        MetricDescriptionView { kind: MetricKind::Histogram(MetricUnit::Seconds), name: "claude_chat_http_duration_seconds"@, description: "HTTP duration"@ },
        MetricDescriptionView { kind: MetricKind::Counter, name: "claude_chat_control_commands_total"@, description: "Control room commands"@ },
        MetricDescriptionView { kind: MetricKind::Gauge(MetricUnit::Seconds), name: "claude_chat_uptime_seconds"@, description: "Bot uptime"@ },
        MetricDescriptionView { kind: MetricKind::Gauge(MetricUnit::Count), name: "claude_chat_rooms_configured"@, description: "Rooms configured"@ },
        MetricDescriptionView { kind: MetricKind::Gauge(MetricUnit::Count), name: "claude_chat_rooms_active"@, description: "Rooms active"@ },
    ]
}

/// The metrics that the service reports, with their kinds, units and
/// descriptions.
pub fn metric_catalog() -> (c: Vec<MetricDescription>)
    ensures
        c@.map_values(|d: MetricDescription| d@) == metrics_described(),
{
    let mut c: Vec<MetricDescription> = Vec::new();
    c.push(MetricDescription { kind: MetricKind::Counter, name: "claude_chat_matrix_messages_received_total", description: "Matrix messages received" });
    c.push(MetricDescription { kind: MetricKind::Counter, name: "claude_chat_matrix_messages_sent_total", description: "Matrix messages sent" });
    c.push(MetricDescription { kind: MetricKind::Counter, name: "claude_chat_matrix_sync_errors_total", description: "Matrix sync errors" });
    c.push(MetricDescription { kind: MetricKind::Histogram(MetricUnit::Seconds), name: "claude_chat_matrix_sync_duration_seconds", description: "Sync duration" });
    c.push(MetricDescription { kind: MetricKind::Counter, name: "claude_chat_matrix_api_requests_total", description: "Matrix API requests" });
    c.push(MetricDescription { kind: MetricKind::Histogram(MetricUnit::Seconds), name: "claude_chat_matrix_api_duration_seconds", description: "API request duration" });
    c.push(MetricDescription { kind: MetricKind::Counter, name: "claude_chat_auth_checks_total", description: "Auth checks performed" });
    c.push(MetricDescription { kind: MetricKind::Counter, name: "claude_chat_session_started_total", description: "Assistant sessions started" });
    c.push(MetricDescription { kind: MetricKind::Counter, name: "claude_chat_session_completed_total", description: "Assistant sessions completed" });
    c.push(MetricDescription { kind: MetricKind::Gauge(MetricUnit::Count), name: "claude_chat_session_active", description: "Active assistant sessions" });
    c.push(MetricDescription { kind: MetricKind::Histogram(MetricUnit::Seconds), name: "claude_chat_session_duration_seconds", description: "Session duration" });
    c.push(MetricDescription { kind: MetricKind::Histogram(MetricUnit::Bytes), name: "claude_chat_session_output_bytes", description: "Session output size" });
    c.push(MetricDescription { kind: MetricKind::Counter, name: "claude_chat_session_resume_total", description: "Session resume attempts" });
    c.push(MetricDescription { kind: MetricKind::Counter, name: "claude_chat_command_executed_total", description: "Subprocess commands executed" });
    c.push(MetricDescription { kind: MetricKind::Histogram(MetricUnit::Seconds), name: "claude_chat_command_duration_seconds", description: "Command duration" });
    c.push(MetricDescription { kind: MetricKind::Histogram(MetricUnit::Bytes), name: "claude_chat_command_stdout_bytes", description: "Command stdout size" });
    c.push(MetricDescription { kind: MetricKind::Counter, name: "claude_chat_bwrap_spawns_total", description: "Bubblewrap sandbox spawns" });
    c.push(MetricDescription { kind: MetricKind::Counter, name: "claude_chat_bwrap_failures_total", description: "Bubblewrap failures" });
    c.push(MetricDescription { kind: MetricKind::Gauge(MetricUnit::Bytes), name: "claude_chat_store_bytes", description: "Agent store size" });
    c.push(MetricDescription { kind: MetricKind::Counter, name: "claude_chat_mcp_secret_requests_total", description: "MCP secret requests" });
    c.push(MetricDescription { kind: MetricKind::Counter, name: "claude_chat_mcp_secret_decrypt_errors_total", description: "MCP decrypt errors" });
    c.push(MetricDescription { kind: MetricKind::Counter, name: "claude_chat_mcp_requests_total", description: "MCP requests total" });
    c.push(MetricDescription { kind: MetricKind::Histogram(MetricUnit::Seconds), name: "claude_chat_mcp_duration_seconds", description: "MCP request duration" });
    c.push(MetricDescription { kind: MetricKind::Counter, name: "claude_chat_agent_messages_sent_total", description: "Inter-agent messages sent" });
    c.push(MetricDescription { kind: MetricKind::Counter, name: "claude_chat_agent_messages_received_total", description: "Inter-agent messages received" });
    c.push(MetricDescription { kind: MetricKind::Histogram(MetricUnit::Seconds), name: "claude_chat_agent_roundtrip_seconds", description: "Inter-agent roundtrip" });
    c.push(MetricDescription { kind: MetricKind::Counter, name: "claude_chat_agent_tool_calls_total", description: "Agent tool calls" });
    c.push(MetricDescription { kind: MetricKind::Counter, name: "claude_chat_agent_queue_rejected_total", description: "Agent queue rejected" });
    c.push(MetricDescription { kind: MetricKind::Counter, name: "claude_chat_agent_loop_rejected_total", description: "Agent loop rejected" });
    c.push(MetricDescription { kind: MetricKind::Gauge(MetricUnit::Count), name: "claude_chat_agent_pending_messages", description: "Pending messages" });
    c.push(MetricDescription { kind: MetricKind::Gauge(MetricUnit::Seconds), name: "claude_chat_agent_processing_lag_seconds", description: "Processing lag" });
    c.push(MetricDescription { kind: MetricKind::Counter, name: "claude_chat_agent_messages_processed_total", description: "Messages processed" });
    c.push(MetricDescription { kind: MetricKind::Counter, name: "claude_chat_http_requests_total", description: "HTTP requests" });
    c.push(MetricDescription { kind: MetricKind::Histogram(MetricUnit::Seconds), name: "claude_chat_http_duration_seconds", description: "HTTP duration" });
    c.push(MetricDescription { kind: MetricKind::Counter, name: "claude_chat_control_commands_total", description: "Control room commands" });
    c.push(MetricDescription { kind: MetricKind::Gauge(MetricUnit::Seconds), name: "claude_chat_uptime_seconds", description: "Bot uptime" });
    c.push(MetricDescription { kind: MetricKind::Gauge(MetricUnit::Count), name: "claude_chat_rooms_configured", description: "Rooms configured" });
    c.push(MetricDescription { kind: MetricKind::Gauge(MetricUnit::Count), name: "claude_chat_rooms_active", description: "Rooms active" });
    assert(c@.map_values(|d: MetricDescription| d@) =~= metrics_described());
    c
}

/// Ends the name of every counter.
pub const TOTAL_SUFFIX: &'static str = "_total";

/// Ends the name of every metric measured in seconds.
pub const SECONDS_SUFFIX: &'static str = "_seconds";

/// Ends the name of every metric measured in bytes.
pub const BYTES_SUFFIX: &'static str = "_bytes";

/// `s` ends with `suffix`.
pub open spec fn ends_with(s: Seq<char>, suffix: Seq<char>) -> bool {
    suffix.len() <= s.len() && s.subrange(s.len() - suffix.len(), s.len() as int) == suffix
}

/// The unit that a metric of kind `kind` is measured in (`None` for a
/// counter).
pub open spec fn measured_in(kind: MetricKind) -> Option<MetricUnit> {
    match kind {
        MetricKind::Counter => None,
        MetricKind::Gauge(u) => Some(u),
        MetricKind::Histogram(u) => Some(u),
    }
}

/// A metric's name tells its kind and unit: counters, which have no unit,
/// are exactly the names that end in `_total`; the metrics measured in
/// seconds are exactly those that end in `_seconds`, those measured in bytes
/// exactly those that end in `_bytes`, and every other metric counts.
pub proof fn law_metric_names_tell_kind_and_unit(i: int)
    requires
        0 <= i < metrics_described().len(),
    ensures
        (measured_in(metrics_described()[i].kind) is None) == ends_with(metrics_described()[i].name, TOTAL_SUFFIX@),
        (measured_in(metrics_described()[i].kind) == Some(MetricUnit::Seconds)) == ends_with(metrics_described()[i].name, SECONDS_SUFFIX@),
        (measured_in(metrics_described()[i].kind) == Some(MetricUnit::Bytes)) == ends_with(metrics_described()[i].name, BYTES_SUFFIX@),
{
    reveal_strlit("_total");
    reveal_strlit("_seconds");
    reveal_strlit("_bytes");
    assert(TOTAL_SUFFIX@ == "_total"@);
    assert(SECONDS_SUFFIX@ == "_seconds"@);
    assert(BYTES_SUFFIX@ == "_bytes"@);
    if i == 0 {
        reveal_strlit("claude_chat_matrix_messages_received_total");
        let name = metrics_described()[0].name;
        assert(name.len() == 42);
        assert(name.subrange(36, 42) =~= "_total"@);
        assert(name.subrange(34, 42)[0] == name[34]);
        assert(name.subrange(36, 42)[1] == name[37]);
    } else if i == 1 {
        reveal_strlit("claude_chat_matrix_messages_sent_total");
        let name = metrics_described()[1].name;
        assert(name.len() == 38);
        assert(name.subrange(32, 38) =~= "_total"@);
        assert(name.subrange(30, 38)[0] == name[30]);
        assert(name.subrange(32, 38)[1] == name[33]);
    } else if i == 2 {
        reveal_strlit("claude_chat_matrix_sync_errors_total");
        let name = metrics_described()[2].name;
        assert(name.len() == 36);
        assert(name.subrange(30, 36) =~= "_total"@);
        assert(name.subrange(28, 36)[0] == name[28]);
        assert(name.subrange(30, 36)[1] == name[31]);
    } else if i == 3 {
        reveal_strlit("claude_chat_matrix_sync_duration_seconds");
        let name = metrics_described()[3].name;
        assert(name.len() == 40);
        assert(name.subrange(34, 40)[0] == name[34]);
        assert(name.subrange(32, 40) =~= "_seconds"@);
    } else if i == 4 {
        reveal_strlit("claude_chat_matrix_api_requests_total");
        let name = metrics_described()[4].name;
        assert(name.len() == 37);
        assert(name.subrange(31, 37) =~= "_total"@);
        assert(name.subrange(29, 37)[0] == name[29]);
        assert(name.subrange(31, 37)[1] == name[32]);
    } else if i == 5 {
        reveal_strlit("claude_chat_matrix_api_duration_seconds");
        let name = metrics_described()[5].name;
        assert(name.len() == 39);
        assert(name.subrange(33, 39)[0] == name[33]);
        assert(name.subrange(31, 39) =~= "_seconds"@);
    } else if i == 6 {
        reveal_strlit("claude_chat_auth_checks_total");
        let name = metrics_described()[6].name;
        assert(name.len() == 29);
        assert(name.subrange(23, 29) =~= "_total"@);
        assert(name.subrange(21, 29)[0] == name[21]);
        assert(name.subrange(23, 29)[1] == name[24]);
    } else if i == 7 {
        reveal_strlit("claude_chat_session_started_total");
        let name = metrics_described()[7].name;
        assert(name.len() == 33);
        assert(name.subrange(27, 33) =~= "_total"@);
        assert(name.subrange(25, 33)[0] == name[25]);
        assert(name.subrange(27, 33)[1] == name[28]);
    } else if i == 8 {
        reveal_strlit("claude_chat_session_completed_total");
        let name = metrics_described()[8].name;
        assert(name.len() == 35);
        assert(name.subrange(29, 35) =~= "_total"@);
        assert(name.subrange(27, 35)[0] == name[27]);
        assert(name.subrange(29, 35)[1] == name[30]);
    } else if i == 9 {
        reveal_strlit("claude_chat_session_active");
        let name = metrics_described()[9].name;
        assert(name.len() == 26);
        assert(name.subrange(20, 26)[0] == name[20]);
        assert(name.subrange(18, 26)[0] == name[18]);
    } else if i == 10 {
        reveal_strlit("claude_chat_session_duration_seconds");
        let name = metrics_described()[10].name;
        assert(name.len() == 36);
        assert(name.subrange(30, 36)[0] == name[30]);
        assert(name.subrange(28, 36) =~= "_seconds"@);
    } else if i == 11 {
        reveal_strlit("claude_chat_session_output_bytes");
        let name = metrics_described()[11].name;
        assert(name.len() == 32);
        assert(name.subrange(26, 32)[1] == name[27]);
        assert(name.subrange(24, 32)[0] == name[24]);
        assert(name.subrange(26, 32) =~= "_bytes"@);
    } else if i == 12 {
        reveal_strlit("claude_chat_session_resume_total");
        let name = metrics_described()[12].name;
        assert(name.len() == 32);
        assert(name.subrange(26, 32) =~= "_total"@);
        assert(name.subrange(24, 32)[0] == name[24]);
        assert(name.subrange(26, 32)[1] == name[27]);
    } else if i == 13 {
        reveal_strlit("claude_chat_command_executed_total");
        let name = metrics_described()[13].name;
        assert(name.len() == 34);
        assert(name.subrange(28, 34) =~= "_total"@);
        assert(name.subrange(26, 34)[0] == name[26]);
        assert(name.subrange(28, 34)[1] == name[29]);
    } else if i == 14 {
        reveal_strlit("claude_chat_command_duration_seconds");
        let name = metrics_described()[14].name;
        assert(name.len() == 36);
        assert(name.subrange(30, 36)[0] == name[30]);
        assert(name.subrange(28, 36) =~= "_seconds"@);
    } else if i == 15 {
        reveal_strlit("claude_chat_command_stdout_bytes");
        let name = metrics_described()[15].name;
        assert(name.len() == 32);
        assert(name.subrange(26, 32)[1] == name[27]);
        assert(name.subrange(24, 32)[0] == name[24]);
        assert(name.subrange(26, 32) =~= "_bytes"@);
    } else if i == 16 {
        reveal_strlit("claude_chat_bwrap_spawns_total");
        let name = metrics_described()[16].name;
        assert(name.len() == 30);
        assert(name.subrange(24, 30) =~= "_total"@);
        assert(name.subrange(22, 30)[0] == name[22]);
        assert(name.subrange(24, 30)[1] == name[25]);
    } else if i == 17 {
        reveal_strlit("claude_chat_bwrap_failures_total");
        let name = metrics_described()[17].name;
        assert(name.len() == 32);
        assert(name.subrange(26, 32) =~= "_total"@);
        assert(name.subrange(24, 32)[0] == name[24]);
        assert(name.subrange(26, 32)[1] == name[27]);
    } else if i == 18 {
        reveal_strlit("claude_chat_store_bytes");
        let name = metrics_described()[18].name;
        assert(name.len() == 23);
        assert(name.subrange(17, 23)[1] == name[18]);
        assert(name.subrange(15, 23)[0] == name[15]);
        assert(name.subrange(17, 23) =~= "_bytes"@);
    } else if i == 19 {
        reveal_strlit("claude_chat_mcp_secret_requests_total");
        let name = metrics_described()[19].name;
        assert(name.len() == 37);
        assert(name.subrange(31, 37) =~= "_total"@);
        assert(name.subrange(29, 37)[0] == name[29]);
        assert(name.subrange(31, 37)[1] == name[32]);
    } else if i == 20 {
        reveal_strlit("claude_chat_mcp_secret_decrypt_errors_total");
        let name = metrics_described()[20].name;
        assert(name.len() == 43);
        assert(name.subrange(37, 43) =~= "_total"@);
        assert(name.subrange(35, 43)[0] == name[35]);
        assert(name.subrange(37, 43)[1] == name[38]);
    } else if i == 21 {
        reveal_strlit("claude_chat_mcp_requests_total");
        let name = metrics_described()[21].name;
        assert(name.len() == 30);
        assert(name.subrange(24, 30) =~= "_total"@);
        assert(name.subrange(22, 30)[0] == name[22]);
        assert(name.subrange(24, 30)[1] == name[25]);
    } else if i == 22 {
        reveal_strlit("claude_chat_mcp_duration_seconds");
        let name = metrics_described()[22].name;
        assert(name.len() == 32);
        assert(name.subrange(26, 32)[0] == name[26]);
        assert(name.subrange(24, 32) =~= "_seconds"@);
    } else if i == 23 {
        reveal_strlit("claude_chat_agent_messages_sent_total");
        let name = metrics_described()[23].name;
        assert(name.len() == 37);
        assert(name.subrange(31, 37) =~= "_total"@);
        assert(name.subrange(29, 37)[0] == name[29]);
        assert(name.subrange(31, 37)[1] == name[32]);
    } else if i == 24 {
        reveal_strlit("claude_chat_agent_messages_received_total");
        let name = metrics_described()[24].name;
        assert(name.len() == 41);
        assert(name.subrange(35, 41) =~= "_total"@);
        assert(name.subrange(33, 41)[0] == name[33]);
        assert(name.subrange(35, 41)[1] == name[36]);
    } else if i == 25 {
        reveal_strlit("claude_chat_agent_roundtrip_seconds");
        let name = metrics_described()[25].name;
        assert(name.len() == 35);
        assert(name.subrange(29, 35)[0] == name[29]);
        assert(name.subrange(27, 35) =~= "_seconds"@);
    } else if i == 26 {
        reveal_strlit("claude_chat_agent_tool_calls_total");
        let name = metrics_described()[26].name;
        assert(name.len() == 34);
        assert(name.subrange(28, 34) =~= "_total"@);
        assert(name.subrange(26, 34)[0] == name[26]);
        assert(name.subrange(28, 34)[1] == name[29]);
    } else if i == 27 {
        reveal_strlit("claude_chat_agent_queue_rejected_total");
        let name = metrics_described()[27].name;
        assert(name.len() == 38);
        assert(name.subrange(32, 38) =~= "_total"@);
        assert(name.subrange(30, 38)[0] == name[30]);
        assert(name.subrange(32, 38)[1] == name[33]);
    } else if i == 28 {
        reveal_strlit("claude_chat_agent_loop_rejected_total");
        let name = metrics_described()[28].name;
        assert(name.len() == 37);
        assert(name.subrange(31, 37) =~= "_total"@);
        assert(name.subrange(29, 37)[0] == name[29]);
        assert(name.subrange(31, 37)[1] == name[32]);
    } else if i == 29 {
        reveal_strlit("claude_chat_agent_pending_messages");
        let name = metrics_described()[29].name;
        assert(name.len() == 34);
        assert(name.subrange(28, 34)[0] == name[28]);
        assert(name.subrange(26, 34)[0] == name[26]);
    } else if i == 30 {
        reveal_strlit("claude_chat_agent_processing_lag_seconds");
        let name = metrics_described()[30].name;
        assert(name.len() == 40);
        assert(name.subrange(34, 40)[0] == name[34]);
        assert(name.subrange(32, 40) =~= "_seconds"@);
    } else if i == 31 {
        reveal_strlit("claude_chat_agent_messages_processed_total");
        let name = metrics_described()[31].name;
        assert(name.len() == 42);
        assert(name.subrange(36, 42) =~= "_total"@);
        assert(name.subrange(34, 42)[0] == name[34]);
        assert(name.subrange(36, 42)[1] == name[37]);
    } else if i == 32 {
        reveal_strlit("claude_chat_http_requests_total");
        let name = metrics_described()[32].name;
        assert(name.len() == 31);
        assert(name.subrange(25, 31) =~= "_total"@);
        assert(name.subrange(23, 31)[0] == name[23]);
        assert(name.subrange(25, 31)[1] == name[26]);
    } else if i == 33 {
        reveal_strlit("claude_chat_http_duration_seconds");
        let name = metrics_described()[33].name;
        assert(name.len() == 33);
        assert(name.subrange(27, 33)[0] == name[27]);
        assert(name.subrange(25, 33) =~= "_seconds"@);
    } else if i == 34 {
        reveal_strlit("claude_chat_control_commands_total");
        let name = metrics_described()[34].name;
        assert(name.len() == 34);
        assert(name.subrange(28, 34) =~= "_total"@);
        assert(name.subrange(26, 34)[0] == name[26]);
        assert(name.subrange(28, 34)[1] == name[29]);
    } else if i == 35 {
        reveal_strlit("claude_chat_uptime_seconds");
        let name = metrics_described()[35].name;
        assert(name.len() == 26);
        assert(name.subrange(20, 26)[0] == name[20]);
        assert(name.subrange(18, 26) =~= "_seconds"@);
    } else if i == 36 {
        reveal_strlit("claude_chat_rooms_configured");
        let name = metrics_described()[36].name;
        assert(name.len() == 28);
        assert(name.subrange(22, 28)[0] == name[22]);
        assert(name.subrange(20, 28)[0] == name[20]);
    } else if i == 37 {
        reveal_strlit("claude_chat_rooms_active");
        let name = metrics_described()[37].name;
        assert(name.len() == 24);
        assert(name.subrange(18, 24)[0] == name[18]);
        assert(name.subrange(16, 24)[0] == name[16]);
    }
}

/// How many of `described` are of the kind that `pick` selects.
pub open spec fn count_of(described: Seq<MetricDescriptionView>, pick: spec_fn(MetricKind) -> bool) -> nat
    decreases described.len(),
{
    if described.len() == 0 {
        0
    } else {
        count_of(described.drop_last(), pick) + if pick(described.last().kind) {
            1nat
        } else {
            0nat
        }
    }
}

/// The service describes 38 metrics: 22 counters, 7 gauges and 9 histograms.
pub proof fn law_metric_counts()
    ensures
        metrics_described().len() == 38,
        count_of(metrics_described(), |k: MetricKind| k is Counter) == 22,
        count_of(metrics_described(), |k: MetricKind| k is Gauge) == 7,
        count_of(metrics_described(), |k: MetricKind| k is Histogram) == 9,
{
    reveal_with_fuel(count_of, 39);
}

/// The counter that counts requests for secrets.
pub const SECRET_REQUESTS_METRIC: &'static str = "claude_chat_mcp_secret_requests_total";

/// The histogram of how long a request for a secret takes.
pub const REQUEST_DURATION_METRIC: &'static str = "claude_chat_mcp_duration_seconds";

/// The metrics that the secrets service reports are described with the kind
/// and unit in which it reports them: requests as a counter, their duration
/// as a histogram in seconds.
pub proof fn law_reported_metrics_are_described()
    ensures
        exists|i: int|
            0 <= i < metrics_described().len() && metrics_described()[i].name == SECRET_REQUESTS_METRIC@
                && metrics_described()[i].kind == MetricKind::Counter,
        exists|i: int|
            0 <= i < metrics_described().len() && metrics_described()[i].name == REQUEST_DURATION_METRIC@
                && metrics_described()[i].kind == MetricKind::Histogram(MetricUnit::Seconds),
{
    reveal_strlit("claude_chat_mcp_secret_requests_total");
    reveal_strlit("claude_chat_mcp_duration_seconds");
    assert(metrics_described()[19].name == SECRET_REQUESTS_METRIC@);
    assert(metrics_described()[22].name == REQUEST_DURATION_METRIC@);
}

/// Begins the name of every metric that the service reports.
pub const METRIC_PREFIX: &'static str = "claude_chat_";

/// Every metric that the service reports is named with the prefix
/// `claude_chat_`.
pub proof fn law_metric_names_are_prefixed(i: int)
    requires
        0 <= i < metrics_described().len(),
    ensures
        metrics_described()[i].name.len() > METRIC_PREFIX@.len(),
        metrics_described()[i].name.subrange(0, METRIC_PREFIX@.len() as int) == METRIC_PREFIX@,
{
    reveal_strlit("claude_chat_");
    reveal_strlit("claude_chat_matrix_messages_received_total");
    reveal_strlit("claude_chat_matrix_messages_sent_total");
    reveal_strlit("claude_chat_matrix_sync_errors_total");
    reveal_strlit("claude_chat_matrix_sync_duration_seconds");
    reveal_strlit("claude_chat_matrix_api_requests_total");
    reveal_strlit("claude_chat_matrix_api_duration_seconds");
    reveal_strlit("claude_chat_auth_checks_total");
    reveal_strlit("claude_chat_session_started_total");
    reveal_strlit("claude_chat_session_completed_total");
    reveal_strlit("claude_chat_session_active");
    reveal_strlit("claude_chat_session_duration_seconds");
    reveal_strlit("claude_chat_session_output_bytes");
    reveal_strlit("claude_chat_session_resume_total");
    reveal_strlit("claude_chat_command_executed_total");
    reveal_strlit("claude_chat_command_duration_seconds");
    reveal_strlit("claude_chat_command_stdout_bytes");
    reveal_strlit("claude_chat_bwrap_spawns_total");
    reveal_strlit("claude_chat_bwrap_failures_total");
    reveal_strlit("claude_chat_store_bytes");
    reveal_strlit("claude_chat_mcp_secret_requests_total");
    reveal_strlit("claude_chat_mcp_secret_decrypt_errors_total");
    reveal_strlit("claude_chat_mcp_requests_total");
    reveal_strlit("claude_chat_mcp_duration_seconds");
    reveal_strlit("claude_chat_agent_messages_sent_total");
    reveal_strlit("claude_chat_agent_messages_received_total");
    reveal_strlit("claude_chat_agent_roundtrip_seconds");
    reveal_strlit("claude_chat_agent_tool_calls_total");
    reveal_strlit("claude_chat_agent_queue_rejected_total");
    reveal_strlit("claude_chat_agent_loop_rejected_total");
    reveal_strlit("claude_chat_agent_pending_messages");
    reveal_strlit("claude_chat_agent_processing_lag_seconds");
    reveal_strlit("claude_chat_agent_messages_processed_total");
    reveal_strlit("claude_chat_http_requests_total");
    reveal_strlit("claude_chat_http_duration_seconds");
    reveal_strlit("claude_chat_control_commands_total");
    reveal_strlit("claude_chat_uptime_seconds");
    reveal_strlit("claude_chat_rooms_configured");
    reveal_strlit("claude_chat_rooms_active");
    assert(metrics_described()[i].name.subrange(0, 12) =~= METRIC_PREFIX@);
}

/// Describes every metric of [`metric_catalog`] to the installed metrics
/// recorder, in the catalog's order: each counter through `describe_counter`
/// without a unit, each gauge through `describe_gauge` and each histogram
/// through `describe_histogram` with its unit. It makes no other call on the
/// recorder; what it returns records the describe calls that it made.
pub fn register_metrics() -> (calls: DescribeCalls)
    ensures
        calls@ == metrics_described(),
{
    let catalog = metric_catalog();
    let mut calls = DescribeCalls::new();
    let mut i: usize = 0;
    while i < catalog.len()
        invariant
            i <= catalog@.len(),
            catalog@.map_values(|d: MetricDescription| d@) == metrics_described(),
            calls@ == metrics_described().take(i as int),
        decreases catalog@.len() - i,
    {
        let d = catalog[i];
        assert(metrics_described()[i as int] == d@);
        match d.kind {
            MetricKind::Counter => describe_counter(&mut calls, d.name, d.description),
            MetricKind::Gauge(unit) => describe_gauge(&mut calls, d.name, unit, d.description),
            MetricKind::Histogram(unit) => describe_histogram(&mut calls, d.name, unit, d.description),
        }
        i = i + 1;
        assert(calls@ =~= metrics_described().take(i as int));
    }
    assert(metrics_described().take(i as int) =~= metrics_described());
    calls
}

} // verus!
