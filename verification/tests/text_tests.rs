use asanadw::date_util::strip_code_fences;
use asanadw::llm::agents::task::truncate;
use asanadw::query::builder::{csv_escape, rows_to_csv, signed_decimal_text, QueryBuilder, SqlValue, TaskRow};
use asanadw::storage::schema::month_label;
use asanadw::text::{contains, decimal_text, ends_with, same_text, starts_with, trim};

#[test]
fn test_strip_code_fences_json() {
    assert_eq!(
        strip_code_fences("```json\n{\"key\": \"value\"}\n```"),
        "{\"key\": \"value\"}"
    );
}

#[test]
fn test_strip_code_fences_plain() {
    assert_eq!(
        strip_code_fences("```\n{\"key\": \"value\"}\n```"),
        "{\"key\": \"value\"}"
    );
}

#[test]
fn test_strip_code_fences_none() {
    assert_eq!(
        strip_code_fences("{\"key\": \"value\"}"),
        "{\"key\": \"value\"}"
    );
}

#[test]
fn test_strip_code_fences_whitespace() {
    assert_eq!(strip_code_fences("  ```json\n{}\n```  "), "{}");
}

#[test]
fn test_csv_escape() {
    assert_eq!(csv_escape("hello"), "hello");
    assert_eq!(csv_escape("hello,world"), "\"hello,world\"");
    assert_eq!(csv_escape("say \"hi\""), "\"say \"\"hi\"\"\"");
}

#[test]
fn test_build_sql_default() {
    let builder = QueryBuilder::new();
    let (sql, params) = builder.build_sql();
    assert!(sql.contains("FROM fact_tasks t"));
    assert!(sql.contains("GROUP BY t.task_gid"));
    assert!(sql.contains("ORDER BY t.modified_at ASC"));
    assert!(params.is_empty());
}

#[test]
fn test_build_sql_with_filters() {
    let builder = QueryBuilder::new()
        .project("123")
        .completed(true)
        .limit(10)
        .order_by("t.created_at")
        .descending();
    let (sql, params) = builder.build_sql();
    assert!(sql.contains("btp.project_gid = ?1"));
    assert!(sql.contains("t.is_completed = ?2"));
    assert!(sql.contains("ORDER BY t.created_at DESC"));
    assert!(sql.contains("LIMIT ?3"));
    assert_eq!(params.len(), 3);
}

#[test]
fn strip_code_fences_keeps_what_it_cannot_unwrap() {
    // A fence that is never closed loses only its opening.
    assert_eq!(strip_code_fences("```json\n[1, 2]"), "[1, 2]");
    // White space of any kind is trimmed, also inside the fence.
    assert_eq!(strip_code_fences("\u{a0}```\t x \u{2003}```\n"), "x");
    assert_eq!(strip_code_fences(""), "");
    assert_eq!(strip_code_fences("   "), "");
    assert_eq!(strip_code_fences("```"), "");
    assert_eq!(strip_code_fences("``````"), "");
    assert_eq!(strip_code_fences("```jsonx```"), "x");
    // The fence must come first.
    assert_eq!(strip_code_fences("a ```json b```"), "a ```json b```");
}

#[test]
fn csv_escape_quotes_line_feeds_and_doubles_quotes() {
    assert_eq!(csv_escape("two\nlines"), "\"two\nlines\"");
    assert_eq!(csv_escape("\""), "\"\"\"\"");
    assert_eq!(csv_escape(""), "");
    assert_eq!(csv_escape("a;b"), "a;b");
    assert_eq!(csv_escape("é,\"ü\""), "\"é,\"\"ü\"\"\"");
}

#[test]
fn every_filter_enters_the_statement_in_order() {
    let builder = QueryBuilder::new()
        .tag("urgent")
        .is_subtask(false)
        .has_assignee(true)
        .due_before("2025-12-31")
        .due_after("2025-01-01")
        .completed_before("2025-06-30")
        .completed_after("2025-06-01")
        .created_before("2025-05-31")
        .created_after("2025-05-01")
        .overdue(true)
        .completed(false)
        .assignee("7")
        .team("8")
        .portfolio("9")
        .project("10")
        .limit(5);
    let (sql, params) = builder.build_sql();
    let tail = sql.split("LEFT JOIN dim_sections s ON s.section_gid = btp.section_gid").nth(1).unwrap();
    assert_eq!(
        tail,
        " JOIN bridge_portfolio_projects bpp ON bpp.project_gid = btp.project_gid AND bpp.portfolio_gid = ?2 \
JOIN bridge_team_members btm ON btm.user_gid = t.assignee_gid AND btm.team_gid = ?3 \
JOIN bridge_task_tags btt ON btt.task_gid = t.task_gid AND btt.tag_name = ?14 \
WHERE btp.project_gid = ?1 AND t.assignee_gid = ?4 AND t.is_completed = ?5 AND t.is_overdue = ?6 \
AND t.created_date_key >= ?7 AND t.created_date_key <= ?8 AND t.completed_date_key >= ?9 \
AND t.completed_date_key <= ?10 AND t.due_on >= ?11 AND t.due_on <= ?12 \
AND t.assignee_gid IS NOT NULL AND t.is_subtask = ?13 \
GROUP BY t.task_gid ORDER BY t.modified_at ASC LIMIT ?15"
    );
    assert_eq!(
        params,
        vec![
            SqlValue::Text("10".to_string()),
            SqlValue::Text("9".to_string()),
            SqlValue::Text("8".to_string()),
            SqlValue::Text("7".to_string()),
            SqlValue::Integer(0),
            SqlValue::Integer(1),
            SqlValue::Text("2025-05-01".to_string()),
            SqlValue::Text("2025-05-31".to_string()),
            SqlValue::Text("2025-06-01".to_string()),
            SqlValue::Text("2025-06-30".to_string()),
            SqlValue::Text("2025-01-01".to_string()),
            SqlValue::Text("2025-12-31".to_string()),
            SqlValue::Integer(0),
            SqlValue::Text("urgent".to_string()),
            SqlValue::Integer(5),
        ]
    );
}

#[test]
fn a_query_without_assignee_asks_for_null() {
    let (sql, params) = QueryBuilder::new().has_assignee(false).build_sql();
    assert!(sql.ends_with(
        " WHERE t.assignee_gid IS NULL GROUP BY t.task_gid ORDER BY t.modified_at ASC"
    ));
    assert!(params.is_empty());
    let (plain, _) = QueryBuilder::default().build_sql();
    assert!(!plain.contains("WHERE"));
    assert!(plain.starts_with("SELECT t.task_gid, t.name"));
}

fn row() -> TaskRow {
    TaskRow {
        task_gid: "1".to_string(),
        name: "Write, then \"ship\"".to_string(),
        assignee_gid: None,
        assignee_name: Some("Ada".to_string()),
        is_completed: true,
        completed_at: Some("2025-01-11T00:00:00Z".to_string()),
        due_on: None,
        created_at: "2025-01-01T00:00:00Z".to_string(),
        modified_at: None,
        project_name: Some("P".to_string()),
        section_name: None,
        is_overdue: false,
        days_to_complete: Some(-3),
        num_subtasks: 2,
        num_likes: 0,
        permalink_url: None,
    }
}

#[test]
fn rows_are_written_as_comma_separated_values() {
    let header = "task_gid,name,assignee_gid,assignee_name,is_completed,completed_at,due_on,created_at,modified_at,project_name,section_name,is_overdue,days_to_complete,num_subtasks,num_likes,permalink_url\n";
    assert_eq!(rows_to_csv(&[]), header);
    let mut second = row();
    second.days_to_complete = None;
    second.is_completed = false;
    second.is_overdue = true;
    let table = rows_to_csv(&[row(), second]);
    assert_eq!(
        table,
        format!(
            "{}{}{}",
            header,
            "1,\"Write, then \"\"ship\"\"\",,Ada,true,2025-01-11T00:00:00Z,,2025-01-01T00:00:00Z,,P,,false,-3,2,0,\n",
            "1,\"Write, then \"\"ship\"\"\",,Ada,false,2025-01-11T00:00:00Z,,2025-01-01T00:00:00Z,,P,,true,,2,0,\n"
        )
    );
}

#[test]
fn numbers_are_written_in_decimal() {
    assert_eq!(decimal_text(0), "0");
    assert_eq!(decimal_text(7), "7");
    assert_eq!(decimal_text(10), "10");
    assert_eq!(decimal_text(90210), "90210");
    assert_eq!(decimal_text(u64::MAX), "18446744073709551615");
    assert_eq!(signed_decimal_text(0), "0");
    assert_eq!(signed_decimal_text(-1), "-1");
    assert_eq!(signed_decimal_text(i32::MIN), "-2147483648");
    assert_eq!(signed_decimal_text(i32::MAX), "2147483647");
}

#[test]
fn text_helpers_agree_with_std() {
    assert!(contains("rate limited", "limit"));
    assert!(contains("abc", ""));
    assert!(!contains("abc", "abcd"));
    assert!(!contains("", "a"));
    assert!(contains("aab", "ab"));
    assert!(starts_with("```json", "```"));
    assert!(!starts_with("``", "```"));
    assert!(ends_with("x```", "```"));
    assert!(!ends_with("```x", "```"));
    assert!(same_text("", ""));
    assert!(same_text("täsk", "täsk"));
    assert!(!same_text("task", "tasks"));
    assert!(!same_text("task", "tusk"));
    assert_eq!(trim("  a b\t\n"), "a b");
    assert_eq!(trim("\u{3000}x\u{2028}"), "x");
    assert_eq!(trim(" \n "), "");
    assert_eq!(trim("x"), "x");
}

#[test]
fn truncate_counts_characters() {
    assert_eq!(truncate("hello", 10), "hello");
    assert_eq!(truncate("hello", 5), "hello");
    assert_eq!(truncate("hello", 2), "he");
    assert_eq!(truncate("héllo", 2), "hé");
    assert_eq!(truncate("ééé", 3), "ééé");
    assert_eq!(truncate("hello", 0), "");
}

#[test]
fn months_have_their_names() {
    assert_eq!(month_label(1), "January");
    assert_eq!(month_label(2), "February");
    assert_eq!(month_label(9), "September");
    assert_eq!(month_label(12), "December");
    assert_eq!(month_label(0), "Unknown");
    assert_eq!(month_label(13), "Unknown");
}

#[test]
fn white_space_is_what_the_list_says() {
    let listed = |c: char| {
        matches!(
            u32::from(c),
            0x09..=0x0d
                | 0x20
                | 0x85
                | 0xa0
                | 0x1680
                | 0x2000..=0x200a
                | 0x2028
                | 0x2029
                | 0x202f
                | 0x205f
                | 0x3000
        )
    };
    let mut buffer = [0u8; 4];
    for c in (0..=0x10ffffu32).filter_map(char::from_u32) {
        let text: &str = c.encode_utf8(&mut buffer);
        assert_eq!(trim(text).is_empty(), listed(c), "U+{:04X}", u32::from(c));
        assert_eq!(c.is_whitespace(), listed(c), "U+{:04X}", u32::from(c));
    }
}
