use asanadw::date::Date;
use asanadw::error::Error;
use asanadw::metrics::{build_entity_filter, EntityFilter};
use asanadw::monitor::{choose_workspace, entity_key, is_monitorable, WorkspaceRef};
use asanadw::query::builder::SqlValue;
use asanadw::query::period::Period;
use asanadw::search::{hit_type_label, parse_hit_type, SearchHitType, SearchOptions};
use asanadw::storage::repository::has_meaningful_value;
use asanadw::storage::schema::{
    date_row, dim_date_missing, dim_date_span, period_label, period_row, period_type,
    periods_of_year, prior_for_row, prior_month_date, prior_quarter_date, prior_year_date,
    quarter_end_date, quarter_start_date, DimDateRow, DimPeriodRow,
};

fn d(y: i32, m: u32, day: u32) -> Date {
    Date::from_ymd_opt(y, m, day).unwrap()
}

#[test]
fn quarters_begin_and_end_with_their_months() {
    assert_eq!(quarter_start_date(2025, 1), Some(d(2025, 1, 1)));
    assert_eq!(quarter_start_date(2025, 4), Some(d(2025, 10, 1)));
    assert_eq!(quarter_end_date(2025, 1), Some(d(2025, 3, 31)));
    assert_eq!(quarter_end_date(2025, 2), Some(d(2025, 6, 30)));
    assert_eq!(quarter_end_date(2025, 4), Some(d(2025, 12, 31)));
    assert_eq!(quarter_start_date(2025, 0), None);
    assert_eq!(quarter_start_date(2025, 5), None);
    assert_eq!(quarter_end_date(2025, 5), None);
}

#[test]
fn prior_days_fall_back_to_the_end_of_a_shorter_period() {
    assert_eq!(prior_year_date(d(2025, 3, 10)), Some(d(2024, 3, 10)));
    assert_eq!(prior_year_date(d(2024, 2, 29)), None);
    assert_eq!(prior_month_date(d(2025, 3, 31)), Some(d(2025, 2, 28)));
    assert_eq!(prior_month_date(d(2025, 1, 15)), Some(d(2024, 12, 15)));
    assert_eq!(prior_month_date(d(2024, 3, 30)), Some(d(2024, 2, 29)));
    assert_eq!(prior_quarter_date(d(2025, 5, 15), 44), Some(d(2025, 2, 14)));
    assert_eq!(prior_quarter_date(d(2025, 1, 1), 0), Some(d(2024, 10, 1)));
    // Day 91 of the third quarter; the second has 91 days, numbered to 90.
    assert_eq!(prior_quarter_date(d(2025, 9, 30), 91), Some(d(2025, 6, 30)));
    assert_eq!(prior_quarter_date(d(2025, 6, 30), 90), Some(d(2025, 3, 31)));
}

#[test]
fn the_table_of_days_reaches_a_quarter_ahead() {
    assert_eq!(dim_date_span(d(2025, 2, 10)), Some((d(2023, 1, 1), d(2025, 6, 30))));
    assert_eq!(dim_date_span(d(2025, 5, 10)), Some((d(2023, 1, 1), d(2025, 9, 30))));
    assert_eq!(dim_date_span(d(2025, 8, 10)), Some((d(2023, 1, 1), d(2025, 12, 31))));
    assert_eq!(dim_date_span(d(2025, 11, 10)), Some((d(2023, 1, 1), d(2026, 2, 28))));
    assert_eq!(dim_date_span(d(2027, 12, 31)), Some((d(2025, 1, 1), d(2028, 2, 29))));
    let span = (d(2023, 1, 1), d(2025, 6, 30));
    assert_eq!(dim_date_missing(span, None), Some(span));
    assert_eq!(dim_date_missing(span, Some(d(2025, 6, 30))), None);
    assert_eq!(dim_date_missing(span, Some(d(2025, 9, 30))), None);
    assert_eq!(
        dim_date_missing(span, Some(d(2025, 3, 31))),
        Some((d(2025, 4, 1), d(2025, 6, 30)))
    );
}

#[test]
fn a_day_has_its_row() {
    assert_eq!(
        date_row(d(2025, 3, 31)),
        Some(DimDateRow {
            date: d(2025, 3, 31),
            year: 2025,
            quarter: 1,
            month: 3,
            week: 14,
            day_of_week: 1,
            day_of_month: 31,
            day_of_year: 90,
            is_weekend: false,
            is_first_day_of_month: false,
            is_last_day_of_month: true,
            is_first_day_of_quarter: false,
            is_last_day_of_quarter: true,
            year_key: "2025".to_string(),
            half_key: "2025-H1".to_string(),
            quarter_key: "2025-Q1".to_string(),
            month_key: "2025-03".to_string(),
            week_key: "2025-W14".to_string(),
            day_of_quarter: 89,
            day_of_half: 89,
            prior_year_date: Some(d(2024, 3, 31)),
            prior_quarter_date: Some(d(2024, 12, 29)),
            prior_month_date: Some(d(2025, 2, 28)),
        })
    );
    let new_year = date_row(d(2022, 1, 1)).unwrap();
    assert_eq!(new_year.week_key, "2021-W52");
    assert_eq!(new_year.year_key, "2022");
    assert_eq!((new_year.day_of_week, new_year.is_weekend), (6, true));
    assert!(new_year.is_first_day_of_month && new_year.is_first_day_of_quarter);
    assert_eq!((new_year.day_of_quarter, new_year.day_of_half, new_year.day_of_year), (0, 0, 1));
    let autumn = date_row(d(2025, 10, 5)).unwrap();
    assert_eq!(autumn.half_key, "2025-H2");
    assert_eq!(autumn.quarter_key, "2025-Q4");
    assert_eq!((autumn.day_of_quarter, autumn.day_of_half), (4, 96));
    assert_eq!((autumn.day_of_week, autumn.is_weekend), (7, true));
    let leap = date_row(d(2024, 2, 29)).unwrap();
    assert_eq!(leap.prior_year_date, None);
    assert!(leap.is_last_day_of_month && !leap.is_last_day_of_quarter);
}

#[test]
fn a_period_has_its_row() {
    let today = d(2025, 8, 15);
    assert_eq!(
        period_row(&Period::Quarter(2025, 1), today),
        Some(DimPeriodRow {
            period_key: "2025-Q1".to_string(),
            period_type: "quarter".to_string(),
            label: "Q1 2025".to_string(),
            start: d(2025, 1, 1),
            end: d(2025, 3, 31),
            days_in_period: 90,
            prior_period_key: Some("2024-Q4".to_string()),
        })
    );
    let year = period_row(&Period::Year(2024), today).unwrap();
    assert_eq!((year.label.as_str(), year.days_in_period), ("2024", 366));
    assert_eq!(year.prior_period_key, Some("2023".to_string()));
    let half = period_row(&Period::Half(2025, 2), today).unwrap();
    assert_eq!((half.label.as_str(), half.days_in_period), ("H2 2025", 184));
    assert_eq!(half.prior_period_key, Some("2025-H1".to_string()));
    let month = period_row(&Period::Month(2025, 1), today).unwrap();
    assert_eq!((month.label.as_str(), month.days_in_period), ("January 2025", 31));
    assert_eq!(month.prior_period_key, Some("2024-12".to_string()));
    let week = period_row(&Period::Week(2021, 1), today).unwrap();
    assert_eq!((week.label.as_str(), week.days_in_period), ("Week 1, 2021", 7));
    assert_eq!(week.period_type, "week");
    // The week before the first of 2021 is the 53rd of 2020.
    assert_eq!(week.prior_period_key, Some("2020-W53".to_string()));
    assert_eq!(period_row(&Period::Week(2021, 53), today), None);
    assert_eq!(period_row(&Period::Month(2021, 13), today), None);
}

#[test]
fn a_year_has_nineteen_periods_and_its_weeks() {
    let periods = periods_of_year(2025);
    assert_eq!(periods.len(), 19);
    assert_eq!(periods[0], Period::Year(2025));
    assert_eq!(periods[1..3], [Period::Half(2025, 1), Period::Half(2025, 2)]);
    assert_eq!(periods[3], Period::Quarter(2025, 1));
    assert_eq!(periods[6], Period::Quarter(2025, 4));
    assert_eq!(periods[7], Period::Month(2025, 1));
    assert_eq!(periods[18], Period::Month(2025, 12));
    assert_eq!(period_type(&Period::Year(1)), "year");
    assert_eq!(period_type(&Period::Half(1, 1)), "half");
    assert_eq!(period_type(&Period::Month(1, 1)), "month");
    assert_eq!(period_label(&Period::Month(2025, 13)), "Unknown 2025");
    assert_eq!(period_label(&Period::YearToDate(2025)), "2025-ytd");
    assert_eq!(prior_for_row(&Period::Month(2025, 0)), None);
    assert_eq!(prior_for_row(&Period::YearToDate(2025)), None);
    assert_eq!(prior_for_row(&Period::Week(2025, 1)), Some(Period::Week(2024, 52)));
    assert_eq!(prior_for_row(&Period::Year(i32::MIN)), None);
}

#[test]
fn search_statements_number_their_placeholders() {
    let all = SearchOptions {
        limit: Some(20),
        hit_type: None,
        assignee_gid: Some("7".to_string()),
        project_gid: Some("9".to_string()),
    };
    let (tail, values) = all.search_tail("plan", "t.task_gid");
    assert_eq!(
        tail,
        " AND t.assignee_gid = ?2 AND t.task_gid IN (SELECT task_gid FROM bridge_task_projects \
WHERE project_gid = ?3) ORDER BY rank LIMIT ?4"
    );
    assert_eq!(
        values,
        vec![
            SqlValue::Text("plan".to_string()),
            SqlValue::Text("7".to_string()),
            SqlValue::Text("9".to_string()),
            SqlValue::Integer(20),
        ]
    );
    let by_project = SearchOptions {
        limit: None,
        hit_type: None,
        assignee_gid: None,
        project_gid: Some("9".to_string()),
    };
    let (tail, values) = by_project.search_tail("plan", "c.task_gid");
    assert_eq!(
        tail,
        " AND c.task_gid IN (SELECT task_gid FROM bridge_task_projects WHERE project_gid = ?2) \
ORDER BY rank LIMIT ?3"
    );
    assert_eq!(values.len(), 3);
    assert_eq!(values[2], SqlValue::Integer(50));
    let (tail, values) = SearchOptions::default().search_tail("plan", "t.task_gid");
    assert_eq!(tail, " ORDER BY rank LIMIT ?2");
    assert_eq!(values, vec![SqlValue::Text("plan".to_string()), SqlValue::Integer(50)]);
}

#[test]
fn hit_types_have_names_and_labels() {
    assert_eq!(parse_hit_type("task"), Some(SearchHitType::Task));
    assert_eq!(parse_hit_type("comment"), Some(SearchHitType::Comment));
    assert_eq!(parse_hit_type("project"), Some(SearchHitType::Project));
    assert_eq!(parse_hit_type("custom_field"), Some(SearchHitType::CustomField));
    assert_eq!(parse_hit_type("portfolio"), None);
    assert_eq!(parse_hit_type("Task"), None);
    assert_eq!(hit_type_label(SearchHitType::CustomField), "field");
    assert_eq!(hit_type_label(SearchHitType::Task), "task");
    assert_eq!(hit_type_label(SearchHitType::Portfolio), "portfolio");
}

fn workspace(gid: &str, name: &str) -> WorkspaceRef {
    WorkspaceRef { gid: gid.to_string(), name: name.to_string() }
}

#[test]
fn the_only_workspace_is_chosen() {
    assert_eq!(choose_workspace(&vec![workspace("1", "Home")]), Ok("1".to_string()));
    assert_eq!(
        choose_workspace(&vec![]),
        Err(Error::Config("no workspaces found for this Asana token".to_string()))
    );
    assert_eq!(
        choose_workspace(&vec![workspace("1", "Home"), workspace("2", "Work"), workspace("3", "Club")]),
        Err(Error::Config(
            "multiple workspaces found. Run: asanadw config set workspace_gid <GID>\n  Home (1)\n  Work (2)\n  Club (3)"
                .to_string()
        ))
    );
}

#[test]
fn entities_are_keyed_by_type_and_id() {
    assert_eq!(entity_key("project", "123"), "project:123");
    assert_eq!(entity_key("", ""), ":");
    assert!(is_monitorable("project"));
    assert!(is_monitorable("portfolio"));
    assert!(!is_monitorable("task"));
    assert!(!is_monitorable("team"));
}

#[test]
fn a_metrics_query_is_narrowed_by_project_before_user() {
    assert_eq!(
        build_entity_filter(Some("u"), Some("p")),
        EntityFilter {
            where_clause: " AND btp.project_gid = ?3".to_string(),
            join_clause: "JOIN bridge_task_projects btp ON btp.task_gid = t.task_gid".to_string(),
            value: Some("p".to_string()),
        }
    );
    assert_eq!(
        build_entity_filter(Some("u"), None),
        EntityFilter {
            where_clause: " AND t.assignee_gid = ?3".to_string(),
            join_clause: String::new(),
            value: Some("u".to_string()),
        }
    );
    assert_eq!(
        build_entity_filter(None, None),
        EntityFilter { where_clause: String::new(), join_clause: String::new(), value: None }
    );
}

#[test]
fn custom_fields_without_any_value_are_passed_over() {
    assert!(!has_meaningful_value("", false, false, false, false));
    assert!(has_meaningful_value("High", false, false, false, false));
    assert!(has_meaningful_value("", true, false, false, false));
    assert!(has_meaningful_value("", false, true, false, false));
    assert!(has_meaningful_value("", false, false, true, false));
    assert!(has_meaningful_value("", false, false, false, true));
}
