use horae::plugin::database::judge;
use horae::plugin::database::Privilege;
use horae::plugin::database::refusal;
use horae::plugin::database::Verdict;
use horae::plugin::host::answer;
use horae::plugin::host::check_output;
use horae::plugin::host::Config;
use horae::plugin::host::error_json;
use horae::plugin::host::http_response_json;
use horae::plugin::host::http_result;
use horae::plugin::host::HttpOutcome;
use horae::plugin::host::log_level;
use horae::plugin::host::LogLevel;
use horae::plugin::host::MAX_HOST_BYTES;
use horae::plugin::host::plan_query;
use horae::plugin::host::query_result;
use horae::plugin::host::QueryOutcome;
use horae::plugin::host::read_http_body;
use horae::plugin::host::read_input;
use horae::plugin::host::RowBuffer;
use horae::plugin::manifest::known_hooks;
use horae::plugin::manifest::ManifestFile;
use horae::plugin::manifest::PluginManifest;
use horae::plugin::statement::statement_is_read_only;
use horae::plugin::statement::wrap_select;

#[test]
fn plain_select_is_allowed() {
    assert!(statement_is_read_only("SELECT 1"));
    assert!(statement_is_read_only("  select id from projects  "));
}

#[test]
fn a_cte_select_is_allowed() {
    assert!(statement_is_read_only(
        "WITH t AS (SELECT 1 AS n) SELECT n FROM t"
    ));
}

#[test]
fn writes_are_rejected() {
    assert!(!statement_is_read_only("INSERT INTO users VALUES (1)"));
    assert!(!statement_is_read_only("UPDATE users SET name = 'x'"));
    assert!(!statement_is_read_only("DELETE FROM users"));
    assert!(!statement_is_read_only("DROP TABLE users"));
}

#[test]
fn a_second_statement_is_rejected() {
    assert!(!statement_is_read_only("SELECT 1; DROP TABLE users"));
}

#[test]
fn a_single_trailing_semicolon_is_allowed() {
    assert!(statement_is_read_only("SELECT 1;"));
}

#[test]
fn a_write_hidden_behind_a_comment_is_rejected() {
    // The comment is stripped, exposing the real leading keyword.
    assert!(!statement_is_read_only("-- harmless\nDELETE FROM users"));
}

#[test]
fn comments_and_line_ends_do_not_decide() {
    assert!(statement_is_read_only("-- first\r\nSelect 1 -- ; DROP TABLE users\n;\n-- last"));
    assert!(!statement_is_read_only("SELECT 1;;"));
    assert!(!statement_is_read_only(""));
    assert!(!statement_is_read_only("-- SELECT 1"));
    assert!(!statement_is_read_only("- -SELECT 1"));
    assert!(!statement_is_read_only("SEL"));
}

#[test]
fn wraps_as_a_bounded_row_query() {
    assert_eq!(
        wrap_select("SELECT id FROM projects"),
        "SELECT CASE WHEN octet_length(row_to_json(_t)::text) <= 1048576 THEN row_to_json(_t)::text END FROM (SELECT id FROM projects) AS _t LIMIT 1001"
    );
}

#[test]
fn strips_a_trailing_semicolon_before_wrapping() {
    assert_eq!(
        wrap_select("SELECT 1;"),
        "SELECT CASE WHEN octet_length(row_to_json(_t)::text) <= 1048576 THEN row_to_json(_t)::text END FROM (SELECT 1) AS _t LIMIT 1001"
    );
    assert!(wrap_select("  SELECT 1 ;;\n").contains("FROM (SELECT 1 ) AS _t"));
}

fn config() -> Config {
    let mut config = Config::new();
    config.insert("webhook_url".to_string(), "https://x".to_string());
    config
}

#[test]
fn a_set_key_is_returned() {
    assert_eq!(
        config().get("webhook_url"),
        Some("https://x".to_string())
    );
}

#[test]
fn an_unset_key_is_none() {
    assert_eq!(config().get("missing"), None);
}

#[test]
fn settings_are_answered_as_json() {
    let mut config = config();
    config.insert("quoted".into(), "a \"b\"\n".into());
    assert_eq!(config.config_get(Some("quoted")), "\"a \\\"b\\\"\\n\"");
    assert_eq!(config.config_get(Some("missing")), "null");
    assert_eq!(config.config_get(None), "null");
    config.insert("quoted".into(), "other".into());
    assert_eq!(config.get("quoted").as_deref(), Some("other"));
    assert!(!config.is_empty());
    assert!(Config::new().is_empty());
}

#[test]
fn http_body_accepts_the_size_limit_and_rejects_larger_responses() {
    let body = vec![b'x'; MAX_HOST_BYTES];
    assert_eq!(
        read_http_body(body.as_slice()).unwrap().len(),
        MAX_HOST_BYTES
    );
    let oversized = vec![b'x'; MAX_HOST_BYTES + 1];
    assert!(read_http_body(oversized.as_slice())
        .unwrap_err()
        .contains("size limit"));
}

#[test]
fn invalid_http_utf8_is_an_error_not_an_empty_success() {
    assert!(read_http_body([0xff].as_slice())
        .unwrap_err()
        .contains("UTF-8"));
}

#[test]
fn bytes_are_read_as_text() {
    assert_eq!(read_http_body("é€".as_bytes()).unwrap(), "é€");
    assert_eq!(
        read_http_body(&[b'a', 0xff]).unwrap_err(),
        "HTTP response is not UTF-8: invalid utf-8 sequence of 1 bytes from index 1"
    );
    assert_eq!(read_input("{}".as_bytes()).unwrap(), "{}");
    assert!(read_input(&[0xc3]).unwrap_err().contains("incomplete utf-8"));
    let oversized = vec![b'x'; MAX_HOST_BYTES + 1];
    assert_eq!(read_input(&oversized).unwrap_err(), "host request exceeds the size limit");
    assert_eq!(check_output("x"), Ok(()));
    let long = "é".repeat(MAX_HOST_BYTES / 2);
    assert_eq!(check_output(&long), Ok(()));
    assert_eq!(
        check_output(&(long + "x")),
        Err("host response exceeds the size limit")
    );
}

#[test]
fn http_response_carries_status_and_body() {
    let json = http_response_json(200, "ok".to_string());
    assert!(json.contains("\"status\":200"));
    assert!(json.contains("\"body\":\"ok\""));
}

#[test]
fn error_json_wraps_the_message() {
    assert_eq!(error_json("boom".to_string()), "{\"error\":\"boom\"}");
}

#[test]
fn answers_are_written_as_serde_json_writes_them() {
    for text in ["", "plain", "\"quoted\" \\ \u{1} \u{7f} é 💡\r\n\t/"] {
        let mut object = serde_json::Map::new();
        object.insert("error".into(), serde_json::Value::String(text.into()));
        assert_eq!(
            error_json(text.into()),
            serde_json::Value::Object(object).to_string()
        );
        let mut object = serde_json::Map::new();
        object.insert("body".into(), serde_json::Value::String(text.into()));
        object.insert("status".into(), serde_json::Value::from(404u16));
        assert_eq!(
            http_response_json(404, text.into()),
            serde_json::Value::Object(object).to_string()
        );
    }
}

#[test]
fn unconfigured_sql_never_falls_back_to_application_state() {
    let result = plan_query(Ok("SELECT 1"), false, true);
    assert!(result.unwrap_err().contains("plugin SQL is disabled"));
}

#[test]
fn queries_are_refused_in_order() {
    assert_eq!(
        plan_query(Err("no sql".into()), true, true),
        Err("invalid request: no sql".to_string())
    );
    assert_eq!(
        plan_query(Ok("DELETE FROM users"), false, false),
        Err("only a single SELECT statement is permitted".to_string())
    );
    assert_eq!(
        plan_query(Ok("SELECT 1"), true, false),
        Err("no async runtime".to_string())
    );
    assert_eq!(plan_query(Ok("SELECT 1"), true, true), Ok(wrap_select("SELECT 1")));
}

#[test]
fn rows_are_bounded_without_silent_truncation() {
    let mut rows = RowBuffer::new();
    assert_eq!(RowBuffer::new().finish(), "[]");
    rows.push_row(Some("{\"n\":1}")).unwrap();
    rows.push_row(Some("{\"n\":2}")).unwrap();
    assert_eq!(
        rows.push_row(None),
        Err("plugin query row exceeds the size limit")
    );
    let long = "x".repeat(MAX_HOST_BYTES);
    assert_eq!(
        rows.push_row(Some(long.as_str())),
        Err("plugin query response exceeds the size limit")
    );
    assert_eq!(rows.finish(), "[{\"n\":1},{\"n\":2}]");
    let mut full = RowBuffer::new();
    for _ in 0..1000 {
        full.push_row(Some("1")).unwrap();
    }
    assert_eq!(full.push_row(Some("1")), Err("plugin query exceeds the row limit"));
    assert_eq!(full.finish().len(), 2001);
    let mut exact = RowBuffer::new();
    exact.push_row(Some("x".repeat(MAX_HOST_BYTES - 2).as_str())).unwrap();
    assert_eq!(exact.finish().len(), MAX_HOST_BYTES);
    let mut over = RowBuffer::new();
    assert!(over.push_row(Some("x".repeat(MAX_HOST_BYTES - 1).as_str())).is_err());
}

#[test]
fn log_levels_default_to_information() {
    assert_eq!(log_level(Some("error")), LogLevel::Error);
    assert_eq!(log_level(Some("warn")), LogLevel::Warn);
    assert_eq!(log_level(Some("debug")), LogLevel::Debug);
    assert_eq!(log_level(Some("trace")), LogLevel::Info);
    assert_eq!(log_level(None), LogLevel::Info);
}

#[test]
fn only_connections_without_privileges_are_accepted() {
    let mut at = Privilege::Identity;
    let mut looks = 0;
    loop {
        looks += 1;
        match judge(at, false) {
            Verdict::Look { at: next } => at = next,
            Verdict::Accept => break,
            Verdict::Refuse { .. } => panic!("refused"),
        }
    }
    assert_eq!(looks, 3);
    assert_eq!(
        judge(Privilege::Relations, true),
        Verdict::Refuse { found: Privilege::Relations }
    );
    assert!(refusal(Privilege::Identity).contains("unprivileged login"));
    assert!(refusal(Privilege::Relations).contains("write privileges"));
    assert!(refusal(Privilege::Functions).contains("unapproved database function"));
}

fn file(name: &str, hooks: &[&str]) -> ManifestFile {
    ManifestFile {
        name: name.into(),
        version: "1.0.0".into(),
        hooks: hooks.iter().map(|hook| hook.to_string()).collect(),
        config: Config::new(),
    }
}

#[test]
fn accepts_all_published_business_events() {
    let hooks = [
        "time_entry_created",
        "time_entry_stopped",
        "invoice_created",
        "invoice_sent",
        "user_logged_in",
        "time_entry_updated",
        "time_entry_deleted",
        "timesheet_submitted",
        "submission_approved",
        "submission_rejected",
        "invoice_paid",
        "invoice_voided",
        "client_created",
        "client_updated",
        "client_deactivated",
        "client_reactivated",
        "project_created",
        "project_updated",
        "project_deactivated",
        "project_reactivated",
        "task_created",
        "task_updated",
        "task_deactivated",
        "task_reactivated",
        "user_created",
        "user_role_changed",
        "user_deactivated",
        "user_logged_out",
        "user_assigned_to_project",
        "assignment_removed",
        "org_branding_updated",
        "project_budget_threshold_reached",
        "project_over_budget",
        "timer_running_too_long",
    ];
    let manifest = PluginManifest::from_file(file("all-events", &hooks)).ok().unwrap();
    assert_eq!(manifest.hooks, hooks);
    assert_eq!(known_hooks(), hooks);
}

#[test]
fn parse_valid_manifest() {
    let m = PluginManifest::from_file(file(
        "test-plugin",
        &["time_entry_created", "invoice_sent"],
    ))
    .ok()
    .unwrap();
    assert_eq!(m.name, "test-plugin");
    assert_eq!(m.hooks.len(), 2);
}

#[test]
fn parses_optional_config_table() {
    let mut parsed = file("webhook", &["invoice_sent"]);
    parsed
        .config
        .insert("webhook_url".into(), "https://example.test/hook".into());
    let m = PluginManifest::from_file(parsed).ok().unwrap();
    assert_eq!(
        m.config.get("webhook_url").as_deref(),
        Some("https://example.test/hook")
    );
}

#[test]
fn config_defaults_to_empty_when_absent() {
    let m = PluginManifest::from_file(file("noconfig", &["invoice_sent"])).ok().unwrap();
    assert!(m.config.is_empty());
}

#[test]
fn reject_unknown_hook() {
    let err = PluginManifest::from_file(file("bad", &["nonexistent_event"])).err().unwrap();
    assert!(err.contains("unknown hook"));
    assert!(err.starts_with(
        "plugin 'bad': unknown hook 'nonexistent_event' (known: time_entry_created, time_entry_stopped, "
    ));
    assert!(err.ends_with("project_over_budget, timer_running_too_long)"));
}

#[test]
fn reject_empty_hooks() {
    let err = PluginManifest::from_file(file("empty", &[])).err().unwrap();
    assert!(err.contains("at least one hook"));
}

#[test]
fn requests_that_fail_say_why() {
    for (outcome, message) in [
        (HttpOutcome::Invalid { complaint: "x".into() }, "invalid request: x"),
        (HttpOutcome::Failed { complaint: "x".into() }, "request failed: x"),
        (HttpOutcome::Unread { complaint: "x".into() }, "could not read HTTP response: x"),
        (
            HttpOutcome::Answered { status: 200, body: vec![b'a'; 1048577] },
            "HTTP response exceeds the size limit",
        ),
    ] {
        assert_eq!(http_result(outcome), Err(message.to_string()));
    }
    let answered = HttpOutcome::Answered { status: 502, body: b"a\"b".to_vec() };
    assert_eq!(
        answer(http_result(answered)),
        "{\"body\":\"a\\\"b\",\"status\":502}"
    );
    assert_eq!(
        answer(query_result(QueryOutcome::TimedOut)),
        "{\"error\":\"database query timed out\"}"
    );
    assert_eq!(
        query_result(QueryOutcome::Failed { complaint: "x".into() }),
        Err("query failed: x".to_string())
    );
    assert_eq!(
        answer(query_result(QueryOutcome::Rows { json: "[]".into() })),
        "[]"
    );
}

#[test]
fn texts_are_escaped_in_json() {
    assert_eq!(
        error_json("a\"b\\c".to_string()),
        "{\"error\":\"a\\\"b\\\\c\"}"
    );
    assert_eq!(
        error_json("\u{8}\u{c}\n\r\t".to_string()),
        "{\"error\":\"\\b\\f\\n\\r\\t\"}"
    );
    assert_eq!(
        error_json("\u{0}\u{1}\u{1f}\u{7f}".to_string()),
        "{\"error\":\"\\u0000\\u0001\\u001f\u{7f}\"}"
    );
    assert_eq!(
        error_json("\u{e9}\u{1f600}/".to_string()),
        "{\"error\":\"\u{e9}\u{1f600}/\"}"
    );
}

#[test]
fn different_texts_are_answered_differently() {
    assert_ne!(error_json("a\n".to_string()), error_json("a\\n".to_string()));
    assert_ne!(error_json("\"".to_string()), error_json("\\\"".to_string()));
    let mut config = Config::new();
    config.insert("a".to_string(), "null".to_string());
    assert_eq!(config.config_get(Some("a")), "\"null\"");
    assert_ne!(config.config_get(Some("a")), config.config_get(Some("b")));
}

#[test]
fn quoted_dashes_hide_no_second_statement() {
    assert!(!statement_is_read_only("SELECT '--'; DROP TABLE users"));
    assert!(!statement_is_read_only("SELECT \"--\"; DROP TABLE users"));
    assert!(!statement_is_read_only("SELECT $$--$$; DROP TABLE users"));
    assert!(!statement_is_read_only("SELECT $a$ $$ --$a$; DROP TABLE users"));
    assert!(!statement_is_read_only("SELECT E'\\'--'; DROP TABLE users"));
    assert!(!statement_is_read_only("SELECT e'a'\n -- b\n '\\'--'; DROP TABLE users"));
    assert!(!statement_is_read_only("SELECT 'a''--'; DROP TABLE users"));
    assert!(!statement_is_read_only("SELECT x$$, ' $$--'; DROP TABLE users"));
}

#[test]
fn dashes_in_a_block_comment_hide_no_second_statement() {
    assert!(!statement_is_read_only("SELECT 1 /* -- */; DROP TABLE users"));
    assert!(!statement_is_read_only("SELECT 1 /* /* */ -- */; DROP TABLE users"));
    assert!(!statement_is_read_only("SELECT 1 /*/ -- */; DROP TABLE users"));
}

#[test]
fn comments_behind_what_is_quoted_are_skipped() {
    assert!(statement_is_read_only("SELECT '--' -- ; DROP TABLE users"));
    assert!(statement_is_read_only("SELECT '\\'; -- it's done; really"));
    assert!(statement_is_read_only("SELECT E'\\'' -- a; b"));
    assert!(statement_is_read_only("SELECT $$'$$ -- a; b"));
    assert!(statement_is_read_only("SELECT \"'\" /* ' */ -- a; b"));
    assert!(statement_is_read_only("SELECT $1 -- a; b"));
    assert!(!statement_is_read_only("SELECT 'a;b'"));
}

#[test]
fn comments_case_and_white_space_do_not_decide() {
    let statement = "SELECT '--' FROM t";
    for (sql, taken) in [(statement, true), ("SELECT 1; SELECT 2", false)] {
        assert_eq!(statement_is_read_only(sql), taken);
        assert_eq!(statement_is_read_only(&format!("-- it's; \n{sql}")), taken);
        assert_eq!(statement_is_read_only(&format!("{sql}\n-- it's; ")), taken);
        assert_eq!(statement_is_read_only(&format!(" \t\u{a0}\n{sql}\r\n\u{a0}")), taken);
        assert_eq!(statement_is_read_only(&sql.to_ascii_lowercase()), taken);
    }
}

#[test]
fn the_case_of_marks_decides_only_where_literals_end_elsewhere() {
    for sql in [
        "SELECT $tag$ -- ; $tag$",
        "SELECT $tag$ x $tag$ -- ;",
        "SELECT $a$ $b$ -- ; $a$",
        "SELECT '$a$ $A$' -- ;",
        "SELECT $1a$, $1A$ -- ;",
    ] {
        let taken = statement_is_read_only(sql);
        assert_eq!(statement_is_read_only(&sql.to_ascii_uppercase()), taken, "{sql}");
        assert_eq!(statement_is_read_only(&sql.to_ascii_lowercase()), taken, "{sql}");
    }
    assert!(!statement_is_read_only("SELECT $tag$ -- ; $tag$"));
    assert!(statement_is_read_only("SELECT $tag$ x $tag$ -- ;"));
    // Here the second mark closes the literal in upper case alone.
    assert!(!statement_is_read_only("SELECT $a$ $A$ -- ; $a$"));
    assert!(statement_is_read_only("SELECT $A$ $A$ -- ; $A$"));
}
