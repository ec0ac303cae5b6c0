use asanadw::error::Error;
use asanadw::url::{
    generate_asana_url, is_gid, parse_asana_url, parse_legacy_url, parse_new_url, read_url_parts,
    resolve_gid, AsanaUrlInfo, UrlParts,
};

#[test]
fn test_portfolio_url() {
    let info =
        parse_asana_url("https://app.asana.com/0/portfolio/1208241409266353/list").unwrap();
    assert_eq!(
        info,
        AsanaUrlInfo::Portfolio {
            portfolio_gid: "1208241409266353".to_string()
        }
    );
}

#[test]
fn test_project_url_with_list() {
    let info = parse_asana_url("https://app.asana.com/0/1234567890/list").unwrap();
    assert_eq!(
        info,
        AsanaUrlInfo::Project {
            project_gid: "1234567890".to_string()
        }
    );
}

#[test]
fn test_project_url_with_board() {
    let info = parse_asana_url("https://app.asana.com/0/1234567890/board").unwrap();
    assert_eq!(
        info,
        AsanaUrlInfo::Project {
            project_gid: "1234567890".to_string()
        }
    );
}

#[test]
fn test_project_url_bare() {
    let info = parse_asana_url("https://app.asana.com/0/1234567890").unwrap();
    assert_eq!(
        info,
        AsanaUrlInfo::Project {
            project_gid: "1234567890".to_string()
        }
    );
}

#[test]
fn test_task_url() {
    let info = parse_asana_url("https://app.asana.com/0/1234567890/9876543210").unwrap();
    assert_eq!(
        info,
        AsanaUrlInfo::Task {
            task_gid: "9876543210".to_string(),
            project_gid: Some("1234567890".to_string()),
        }
    );
}

#[test]
fn test_new_format_project_url() {
    let info = parse_asana_url(
        "https://app.asana.com/1/1209759542559920/project/1209759542987106/list/1209759322889760",
    )
    .unwrap();
    assert_eq!(
        info,
        AsanaUrlInfo::Project {
            project_gid: "1209759542987106".to_string()
        }
    );
}

#[test]
fn test_new_format_portfolio_url() {
    let info = parse_asana_url(
        "https://app.asana.com/1/1209759542559920/portfolio/1208241409266353/list",
    )
    .unwrap();
    assert_eq!(
        info,
        AsanaUrlInfo::Portfolio {
            portfolio_gid: "1208241409266353".to_string()
        }
    );
}

#[test]
fn test_new_format_task_url() {
    let info =
        parse_asana_url("https://app.asana.com/1/1209759542559920/task/9876543210").unwrap();
    assert_eq!(
        info,
        AsanaUrlInfo::Task {
            task_gid: "9876543210".to_string(),
            project_gid: None,
        }
    );
}

#[test]
fn test_not_asana_url() {
    assert!(parse_asana_url("https://google.com/foo").is_err());
}

#[test]
fn test_resolve_gid_raw() {
    assert_eq!(resolve_gid("1234567890").unwrap(), "1234567890");
}

#[test]
fn test_resolve_gid_from_url() {
    assert_eq!(
        resolve_gid("https://app.asana.com/0/portfolio/1234567890/list").unwrap(),
        "1234567890"
    );
}

#[test]
fn test_resolve_gid_email() {
    // Emails pass through as-is for later API resolution
    assert_eq!(resolve_gid("user@example.com").unwrap(), "user@example.com");
}

#[test]
fn test_is_gid() {
    assert!(is_gid("1234567890"));
    assert!(!is_gid(""));
    assert!(!is_gid("abc"));
    assert!(!is_gid("123abc"));
}

fn segments(list: &[&str]) -> Vec<String> {
    list.iter().map(|s| s.to_string()).collect()
}

#[test]
fn new_format_team_url_keeps_the_workspace() {
    let info = parse_asana_url("https://app.asana.com/1/111/team/222/overview").unwrap();
    assert_eq!(
        info,
        AsanaUrlInfo::Team { team_gid: "222".to_string(), workspace_gid: "111".to_string() }
    );
    assert_eq!(resolve_gid("https://app.asana.com/1/111/team/222").unwrap(), "222");
}

#[test]
fn every_error_of_the_url_parser_has_its_message() {
    assert_eq!(
        parse_asana_url("https://google.com/foo"),
        Err(Error::UrlParse("not an Asana URL: https://google.com/foo".to_string()))
    );
    assert_eq!(
        parse_asana_url("https://app.asana.com/2/123"),
        Err(Error::UrlParse("unexpected URL format: https://app.asana.com/2/123".to_string()))
    );
    assert_eq!(
        parse_asana_url("https://app.asana.com/1/abc/project/123"),
        Err(Error::UrlParse(
            "missing workspace GID in URL: https://app.asana.com/1/abc/project/123".to_string()
        ))
    );
    assert_eq!(
        parse_asana_url("https://app.asana.com/1/111/project/xyz"),
        Err(Error::UrlParse(
            "missing entity GID in URL: https://app.asana.com/1/111/project/xyz".to_string()
        ))
    );
    assert_eq!(
        parse_asana_url("https://app.asana.com/1/111/goal/222"),
        Err(Error::UrlParse(
            "unknown entity type 'goal' in URL: https://app.asana.com/1/111/goal/222".to_string()
        ))
    );
    assert_eq!(
        parse_asana_url("https://app.asana.com/0/portfolio/abc/list"),
        Err(Error::UrlParse(
            "missing portfolio GID in URL: https://app.asana.com/0/portfolio/abc/list".to_string()
        ))
    );
    assert_eq!(
        parse_asana_url("https://app.asana.com/0/home/123"),
        Err(Error::UrlParse(
            "expected GID in URL path: https://app.asana.com/0/home/123".to_string()
        ))
    );
    assert_eq!(
        parse_asana_url("https://app.asana.com/0/123/inbox"),
        Err(Error::UrlParse(
            "could not parse Asana URL: https://app.asana.com/0/123/inbox".to_string()
        ))
    );
    // The message of a text that is no link at all is the parser's own.
    assert!(matches!(parse_asana_url("not a url"), Err(Error::UrlParse(_))));
    assert_eq!(
        parse_asana_url("not a url"),
        Err(Error::UrlParse(url::Url::parse("not a url").unwrap_err().to_string()))
    );
}

#[test]
fn legacy_and_new_layouts_read_their_segments() {
    let input = "x";
    assert_eq!(
        parse_legacy_url(input, &segments(&["12", "timeline"])),
        Ok(AsanaUrlInfo::Project { project_gid: "12".to_string() })
    );
    assert_eq!(
        parse_legacy_url(input, &segments(&["12", ""])),
        Ok(AsanaUrlInfo::Project { project_gid: "12".to_string() })
    );
    assert_eq!(
        parse_legacy_url(input, &segments(&["12", "34", "f"])),
        Ok(AsanaUrlInfo::Task { task_gid: "34".to_string(), project_gid: Some("12".to_string()) })
    );
    assert_eq!(
        parse_legacy_url(input, &segments(&["portfolio"])),
        Err(Error::UrlParse("missing portfolio GID in URL: x".to_string()))
    );
    assert_eq!(
        parse_legacy_url(input, &[]),
        Err(Error::UrlParse("expected GID in URL path: x".to_string()))
    );
    assert_eq!(
        parse_new_url(input, &[]),
        Err(Error::UrlParse("missing workspace GID in URL: x".to_string()))
    );
    assert_eq!(
        parse_new_url(input, &segments(&["1", "task"])),
        Err(Error::UrlParse("missing entity GID in URL: x".to_string()))
    );
}

#[test]
fn url_parts_decide_what_a_link_names() {
    let parts = UrlParts {
        host: Some("app.asana.com".to_string()),
        segments: Some(segments(&["0", "55", "66"])),
    };
    assert_eq!(
        read_url_parts("in", Ok(parts)),
        Ok(AsanaUrlInfo::Task { task_gid: "66".to_string(), project_gid: Some("55".to_string()) })
    );
    let no_host = UrlParts { host: None, segments: Some(segments(&["0", "55"])) };
    assert_eq!(
        read_url_parts("in", Ok(no_host)),
        Err(Error::UrlParse("not an Asana URL: in".to_string()))
    );
    let no_path = UrlParts { host: Some("asana.com".to_string()), segments: None };
    assert_eq!(
        read_url_parts("in", Ok(no_path)),
        Err(Error::UrlParse("unexpected URL format: in".to_string()))
    );
    assert_eq!(
        read_url_parts("in", Err("relative URL without a base".to_string())),
        Err(Error::UrlParse("relative URL without a base".to_string()))
    );
}

#[test]
fn generated_urls_follow_the_kind() {
    assert_eq!(generate_asana_url("task", "42"), "https://app.asana.com/0/0/42");
    assert_eq!(generate_asana_url("project", "42"), "https://app.asana.com/0/42");
    assert_eq!(
        generate_asana_url("portfolio", "42"),
        "https://app.asana.com/0/portfolio/42/list"
    );
    assert_eq!(generate_asana_url("team", "42"), "https://app.asana.com/0/0/42");
}

#[test]
fn resolve_gid_refuses_a_broken_service_link() {
    assert_eq!(
        resolve_gid("https://app.asana.com/0/home/123"),
        Err(Error::UrlParse(
            "expected GID in URL path: https://app.asana.com/0/home/123".to_string()
        ))
    );
    assert_eq!(resolve_gid("Some Name").unwrap(), "Some Name");
    // Digits other than the ten of ASCII make no id.
    assert!(!is_gid("١٢٣"));
}

#[test]
fn errors_are_worded_for_the_user() {
    assert_eq!(Error::UrlParse("x".to_string()).to_string(), "Invalid URL: x");
    assert_eq!(Error::Api("x".to_string()).to_string(), "Asana API error: x");
    assert_eq!(Error::Database("x".to_string()).to_string(), "Database error: x");
    assert_eq!(Error::Migration("x".to_string()).to_string(), "Migration error: x");
    assert_eq!(
        Error::Sync { entity_key: "project:1".to_string(), message: "boom".to_string() }
            .to_string(),
        "Sync error for project:1: boom"
    );
    assert_eq!(Error::InvalidIdentifier("x".to_string()).to_string(), "Invalid identifier: x");
    assert_eq!(Error::PeriodParse("x".to_string()).to_string(), "Invalid period format: x");
    assert_eq!(Error::Config("x".to_string()).to_string(), "Configuration error: x");
    assert_eq!(Error::Llm("x".to_string()).to_string(), "LLM error: x");
    assert_eq!(Error::NotFound("x".to_string()).to_string(), "Entity not found: x");
    assert_eq!(Error::Other("x".to_string()).to_string(), "x");
}
