//! Links of the remote service.
//!
//! A link names a task, a project, a portfolio or a team. Two layouts are in
//! use. The older one starts its path with `0`:
//!
//! - `https://app.asana.com/0/portfolio/<portfolio>/list`
//! - `https://app.asana.com/0/<project>/<task>`
//! - `https://app.asana.com/0/<project>/list` (or `board`, `timeline`, ...)
//! - `https://app.asana.com/0/<project>`
//!
//! The newer one starts it with `1` and the workspace:
//!
//! - `https://app.asana.com/1/<workspace>/project/<project>/...`
//! - `https://app.asana.com/1/<workspace>/portfolio/<portfolio>/...`
//! - `https://app.asana.com/1/<workspace>/task/<task>/...`
//! - `https://app.asana.com/1/<workspace>/team/<team>/...`
//!
//! Ids are runs of decimal digits. Taking a link apart into its host and the
//! segments of its path is left to the `url` crate; which entity the segments
//! name is decided here.

use crate::error::{join, Error, ErrorView};
use crate::sync::events::{text_of, texts_of};
use crate::text::{chars_of, contains, contains_text, is_digit, same_text};
use vstd::prelude::*;
use vstd::slice::slice_subrange;
use vstd::string::StringExecFns;

verus! {

/// What a link names.
#[derive(Debug, Clone, PartialEq, Eq)]
pub enum AsanaUrlInfo {
    Task { task_gid: String, project_gid: Option<String> },
    Project { project_gid: String },
    Portfolio { portfolio_gid: String },
    Team { team_gid: String, workspace_gid: String },
}

/// An [`AsanaUrlInfo`] with its texts as sequences of characters.
pub enum AsanaUrlInfoView {
    Task { task_gid: Seq<char>, project_gid: Option<Seq<char>> },
    Project { project_gid: Seq<char> },
    Portfolio { portfolio_gid: Seq<char> },
    Team { team_gid: Seq<char>, workspace_gid: Seq<char> },
}

impl View for AsanaUrlInfo {
    type V = AsanaUrlInfoView;

    open spec fn view(&self) -> AsanaUrlInfoView {
        match self {
            AsanaUrlInfo::Task { task_gid, project_gid } => AsanaUrlInfoView::Task {
                task_gid: task_gid@,
                project_gid: text_of(*project_gid),
            },
            AsanaUrlInfo::Project { project_gid } => AsanaUrlInfoView::Project {
                project_gid: project_gid@,
            },
            AsanaUrlInfo::Portfolio { portfolio_gid } => AsanaUrlInfoView::Portfolio {
                portfolio_gid: portfolio_gid@,
            },
            AsanaUrlInfo::Team { team_gid, workspace_gid } => AsanaUrlInfoView::Team {
                team_gid: team_gid@,
                workspace_gid: workspace_gid@,
            },
        }
    }
}

/// The view of the outcome of taking a link apart.
pub open spec fn outcome_of(outcome: Result<AsanaUrlInfo, Error>) -> Result<
    AsanaUrlInfoView,
    ErrorView,
> {
    match outcome {
        Ok(info) => Ok(info@),
        Err(e) => Err(e@),
    }
}

/// The host of a link and the segments of its path, as the `url` crate gives
/// them.
#[derive(Debug, Clone, PartialEq, Eq)]
pub struct UrlParts {
    /// The host, where the link has one.
    pub host: Option<String>,
    /// The segments of the path, where the link can have any.
    pub segments: Option<Vec<String>>,
}

/// [`UrlParts`] with its texts as sequences of characters.
pub struct UrlPartsView {
    pub host: Option<Seq<char>>,
    pub segments: Option<Seq<Seq<char>>>,
}

impl View for UrlParts {
    type V = UrlPartsView;

    open spec fn view(&self) -> UrlPartsView {
        UrlPartsView {
            host: text_of(self.host),
            segments: match self.segments {
                Some(list) => Some(texts_of(list@)),
                None => None,
            },
        }
    }
}

/// What `url::Url::parse` makes of a text: the host (`Url::host_str`) and
/// the path segments (`Url::path_segments`) of the link, or the message of
/// the parse error.
pub uninterp spec fn parsed_url(input: Seq<char>) -> Result<UrlPartsView, Seq<char>>;

/// The view of the outcome of [`split_url`].
pub open spec fn parts_of(outcome: Result<UrlParts, String>) -> Result<UrlPartsView, Seq<char>> {
    match outcome {
        Ok(parts) => Ok(parts@),
        Err(message) => Err(message@),
    }
}

/// Calls `url::Url::parse`, and on the link that comes back `Url::host_str`
/// and `Url::path_segments`; a parse error is handed back as its message.
///
/// Trusted: the result is the one named [`parsed_url`].
#[verifier::external_body]
pub(crate) fn split_url(input: &str) -> (outcome: Result<UrlParts, String>)
    ensures
        parts_of(outcome) == parsed_url(input@),
{
    match url::Url::parse(input) {
        Ok(link) => Ok(
            UrlParts {
                host: link.host_str().map(|h| h.to_string()),
                segments: link.path_segments().map(|s| s.map(|p| p.to_string()).collect()),
            },
        ),
        Err(e) => Err(e.to_string()),
    }
}

/// Whether a text is an id: one or more decimal digits.
pub open spec fn is_gid_text(s: Seq<char>) -> bool {
    s.len() > 0 && forall|i: int| 0 <= i < s.len() ==> is_digit(#[trigger] s[i])
}

/// Check if a string looks like an id (all digits).
pub fn is_gid(s: &str) -> (gid: bool)
    ensures
        gid == is_gid_text(s@),
{
    let chars = chars_of(s);
    if chars.len() == 0 {
        return false;
    }
    let mut i: usize = 0;
    while i < chars.len()
        invariant
            i <= chars.len(),
            chars@ == s@,
            forall|k: int| 0 <= k < i ==> is_digit(#[trigger] s@[k]),
        decreases chars.len() - i,
    {
        let c = chars[i];
        if !(c >= '0' && c <= '9') {
            return false;
        }
        i += 1;
    }
    true
}

/// The segment at place `i`, or the empty text where there is none.
pub open spec fn segment_at(rest: Seq<Seq<char>>, i: int) -> Seq<char> {
    if 0 <= i < rest.len() {
        rest[i]
    } else {
        Seq::empty()
    }
}

/// Whether a segment names a view of a project rather than a task.
pub open spec fn is_view_name(segment: Seq<char>) -> bool {
    segment == "list"@ || segment == "board"@ || segment == "timeline"@ || segment == "calendar"@
        || segment == "overview"@ || segment == "messages"@ || segment == "files"@ || segment
        == "progress"@ || segment.len() == 0
}

/// An error over a link: `what`, then the link itself.
pub open spec fn url_error(what: Seq<char>, input: Seq<char>) -> ErrorView {
    ErrorView::UrlParse(what + input)
}

/// What a link of the newer layout names, given the segments after the `1`:
/// the workspace, the kind of entity, its id, and whatever view follows.
pub open spec fn new_url_spec(input: Seq<char>, rest: Seq<Seq<char>>) -> Result<
    AsanaUrlInfoView,
    ErrorView,
> {
    let workspace = segment_at(rest, 0);
    let kind = segment_at(rest, 1);
    let gid = segment_at(rest, 2);
    if !(rest.len() > 0 && is_gid_text(workspace)) {
        Err(url_error("missing workspace GID in URL: "@, input))
    } else if !is_gid_text(gid) {
        Err(url_error("missing entity GID in URL: "@, input))
    } else if kind == "project"@ {
        Ok(AsanaUrlInfoView::Project { project_gid: gid })
    } else if kind == "portfolio"@ {
        Ok(AsanaUrlInfoView::Portfolio { portfolio_gid: gid })
    } else if kind == "task"@ {
        Ok(AsanaUrlInfoView::Task { task_gid: gid, project_gid: None })
    } else if kind == "team"@ {
        Ok(AsanaUrlInfoView::Team { team_gid: gid, workspace_gid: workspace })
    } else {
        Err(ErrorView::UrlParse("unknown entity type '"@ + kind + "' in URL: "@ + input))
    }
}

/// What a link of the older layout names, given the segments after the `0`.
pub open spec fn legacy_url_spec(input: Seq<char>, rest: Seq<Seq<char>>) -> Result<
    AsanaUrlInfoView,
    ErrorView,
> {
    let first = segment_at(rest, 0);
    let second = segment_at(rest, 1);
    if rest.len() > 0 && first == "portfolio"@ {
        if rest.len() > 1 && is_gid_text(second) {
            Ok(AsanaUrlInfoView::Portfolio { portfolio_gid: second })
        } else {
            Err(url_error("missing portfolio GID in URL: "@, input))
        }
    } else if !is_gid_text(first) {
        Err(url_error("expected GID in URL path: "@, input))
    } else if is_view_name(second) {
        Ok(AsanaUrlInfoView::Project { project_gid: first })
    } else if is_gid_text(second) {
        Ok(AsanaUrlInfoView::Task { task_gid: second, project_gid: Some(first) })
    } else {
        Err(url_error("could not parse Asana URL: "@, input))
    }
}

/// The text that marks a host, or an input, as one of the remote service.
pub open spec fn service_domain() -> Seq<char> {
    "asana.com"@
}

/// What a link names, given what the `url` crate made of it.
///
/// A text that is no link is refused with the parser's message. So is a link
/// whose host does not hold the domain of the service, and one whose path
/// starts with neither `0` nor `1`.
pub open spec fn asana_url_spec(input: Seq<char>, parsed: Result<UrlPartsView, Seq<char>>)
    -> Result<AsanaUrlInfoView, ErrorView> {
    match parsed {
        Err(message) => Err(ErrorView::UrlParse(message)),
        Ok(parts) => {
            let host = match parts.host {
                Some(h) => h,
                None => Seq::empty(),
            };
            let segments = match parts.segments {
                Some(list) => list,
                None => Seq::empty(),
            };
            if !contains_text(host, service_domain()) {
                Err(url_error("not an Asana URL: "@, input))
            } else if segments.len() > 0 && segments[0] == "0"@ {
                legacy_url_spec(input, segments.skip(1))
            } else if segments.len() > 0 && segments[0] == "1"@ {
                new_url_spec(input, segments.skip(1))
            } else {
                Err(url_error("unexpected URL format: "@, input))
            }
        },
    }
}

/// The segment at place `i`, or the empty text where there is none.
fn segment(rest: &[String], i: usize) -> (s: &str)
    ensures
        s@ == segment_at(texts_of(rest@), i as int),
{
    if i < rest.len() {
        rest[i].as_str()
    } else {
        proof {
            reveal_strlit("");
            assert(""@ =~= Seq::<char>::empty());
        }
        ""
    }
}

/// Whether a segment names a view of a project rather than a task.
fn names_view(segment: &str) -> (view: bool)
    ensures
        view == is_view_name(segment@),
{
    same_text(segment, "list") || same_text(segment, "board") || same_text(segment, "timeline")
        || same_text(segment, "calendar") || same_text(segment, "overview") || same_text(
        segment,
        "messages",
    ) || same_text(segment, "files") || same_text(segment, "progress") || segment.is_empty()
}

/// An error over a link: `what`, then the link itself.
fn error_over(what: &str, input: &str) -> (e: Error)
    ensures
        e@ == url_error(what@, input@),
{
    Error::UrlParse(join(what, input))
}

/// Parse the newer layout: `/1/<workspace>/<kind>/<id>/...`, given the
/// segments after the `1`.
pub fn parse_new_url(input: &str, rest: &[String]) -> (outcome: Result<AsanaUrlInfo, Error>)
    ensures
        outcome_of(outcome) == new_url_spec(input@, texts_of(rest@)),
{
    let workspace = segment(rest, 0);
    let kind = segment(rest, 1);
    let gid = segment(rest, 2);
    if !(rest.len() > 0 && is_gid(workspace)) {
        return Err(error_over("missing workspace GID in URL: ", input));
    }
    if !is_gid(gid) {
        return Err(error_over("missing entity GID in URL: ", input));
    }
    if same_text(kind, "project") {
        Ok(AsanaUrlInfo::Project { project_gid: String::from_str(gid) })
    } else if same_text(kind, "portfolio") {
        Ok(AsanaUrlInfo::Portfolio { portfolio_gid: String::from_str(gid) })
    } else if same_text(kind, "task") {
        Ok(AsanaUrlInfo::Task { task_gid: String::from_str(gid), project_gid: None })
    } else if same_text(kind, "team") {
        Ok(
            AsanaUrlInfo::Team {
                team_gid: String::from_str(gid),
                workspace_gid: String::from_str(workspace),
            },
        )
    } else {
        let mut text = join("unknown entity type '", kind);
        text.append("' in URL: ");
        text.append(input);
        Err(Error::UrlParse(text))
    }
}

/// Parse the older layout: `/0/...`, given the segments after the `0`.
pub fn parse_legacy_url(input: &str, rest: &[String]) -> (outcome: Result<AsanaUrlInfo, Error>)
    ensures
        outcome_of(outcome) == legacy_url_spec(input@, texts_of(rest@)),
{
    let first = segment(rest, 0);
    let second = segment(rest, 1);
    if rest.len() > 0 && same_text(first, "portfolio") {
        if rest.len() > 1 && is_gid(second) {
            return Ok(AsanaUrlInfo::Portfolio { portfolio_gid: String::from_str(second) });
        }
        return Err(error_over("missing portfolio GID in URL: ", input));
    }
    if !is_gid(first) {
        return Err(error_over("expected GID in URL path: ", input));
    }
    if names_view(second) {
        return Ok(AsanaUrlInfo::Project { project_gid: String::from_str(first) });
    }
    if is_gid(second) {
        return Ok(
            AsanaUrlInfo::Task {
                task_gid: String::from_str(second),
                project_gid: Some(String::from_str(first)),
            },
        );
    }
    Err(error_over("could not parse Asana URL: ", input))
}

/// What a link names, given what the `url` crate made of it.
pub fn read_url_parts(input: &str, parsed: Result<UrlParts, String>) -> (outcome: Result<
    AsanaUrlInfo,
    Error,
>)
    ensures
        outcome_of(outcome) == asana_url_spec(input@, parts_of(parsed)),
{
    match parsed {
        Err(message) => Err(Error::UrlParse(message)),
        Ok(parts) => {
            let in_service = match &parts.host {
                Some(h) => contains(h.as_str(), "asana.com"),
                None => {
                    let found = contains("", "asana.com");
                    proof {
                        reveal_strlit("");
                        assert(""@ =~= Seq::<char>::empty());
                    }
                    found
                },
            };
            if !in_service {
                return Err(error_over("not an Asana URL: ", input));
            }
            match &parts.segments {
                Some(list) => {
                    if list.len() > 0 && same_text(list[0].as_str(), "0") {
                        let rest = slice_subrange(list.as_slice(), 1, list.len());
                        proof {
                            assert(texts_of(rest@) =~= texts_of(list@).skip(1));
                        }
                        parse_legacy_url(input, rest)
                    } else if list.len() > 0 && same_text(list[0].as_str(), "1") {
                        let rest = slice_subrange(list.as_slice(), 1, list.len());
                        proof {
                            assert(texts_of(rest@) =~= texts_of(list@).skip(1));
                        }
                        parse_new_url(input, rest)
                    } else {
                        Err(error_over("unexpected URL format: ", input))
                    }
                },
                None => Err(error_over("unexpected URL format: ", input)),
            }
        },
    }
}

/// Parse a link of the remote service into the ids it names. A text that is
/// no link of the service is refused.
pub fn parse_asana_url(input: &str) -> (outcome: Result<AsanaUrlInfo, Error>)
    ensures
        outcome_of(outcome) == asana_url_spec(input@, parsed_url(input@)),
{
    read_url_parts(input, split_url(input))
}

/// The link to an entity of a kind, by its id.
pub open spec fn asana_url_text(entity_type: Seq<char>, gid: Seq<char>) -> Seq<char> {
    if entity_type == "task"@ {
        "https://app.asana.com/0/0/"@ + gid
    } else if entity_type == "project"@ {
        "https://app.asana.com/0/"@ + gid
    } else if entity_type == "portfolio"@ {
        "https://app.asana.com/0/portfolio/"@ + gid + "/list"@
    } else {
        "https://app.asana.com/0/0/"@ + gid
    }
}

/// Generate the link to an entity of a kind, by its id. A kind that has no
/// layout of its own gets the layout of a task.
pub fn generate_asana_url(entity_type: &str, gid: &str) -> (link: String)
    ensures
        link@ == asana_url_text(entity_type@, gid@),
{
    if same_text(entity_type, "task") {
        join("https://app.asana.com/0/0/", gid)
    } else if same_text(entity_type, "project") {
        join("https://app.asana.com/0/", gid)
    } else if same_text(entity_type, "portfolio") {
        let mut link = join("https://app.asana.com/0/portfolio/", gid);
        link.append("/list");
        link
    } else {
        join("https://app.asana.com/0/0/", gid)
    }
}

/// The id that an input names, given what the `url` crate made of it: an id
/// is itself; a text that holds the domain of the service is read as a link
/// and gives the id of what the link names; any other text (a name, an email
/// address) is handed back as it is, to be resolved later.
pub open spec fn resolved_gid(input: Seq<char>, parsed: Result<UrlPartsView, Seq<char>>) -> Result<
    Seq<char>,
    ErrorView,
> {
    if is_gid_text(input) {
        Ok(input)
    } else if contains_text(input, service_domain()) {
        match asana_url_spec(input, parsed) {
            Ok(AsanaUrlInfoView::Task { task_gid, project_gid }) => Ok(task_gid),
            Ok(AsanaUrlInfoView::Project { project_gid }) => Ok(project_gid),
            Ok(AsanaUrlInfoView::Portfolio { portfolio_gid }) => Ok(portfolio_gid),
            Ok(AsanaUrlInfoView::Team { team_gid, workspace_gid }) => Ok(team_gid),
            Err(e) => Err(e),
        }
    } else {
        Ok(input)
    }
}

/// The view of the outcome of [`resolve_gid`].
pub open spec fn gid_of(outcome: Result<String, Error>) -> Result<Seq<char>, ErrorView> {
    match outcome {
        Ok(gid) => Ok(gid@),
        Err(e) => Err(e@),
    }
}

/// Extract an id from either a raw id or a link of the remote service.
pub fn resolve_gid(input: &str) -> (outcome: Result<String, Error>)
    ensures
        gid_of(outcome) == resolved_gid(input@, parsed_url(input@)),
{
    if is_gid(input) {
        return Ok(String::from_str(input));
    }
    if contains(input, "asana.com") {
        match parse_asana_url(input) {
            Ok(AsanaUrlInfo::Task { task_gid, project_gid }) => Ok(task_gid),
            Ok(AsanaUrlInfo::Project { project_gid }) => Ok(project_gid),
            Ok(AsanaUrlInfo::Portfolio { portfolio_gid }) => Ok(portfolio_gid),
            Ok(AsanaUrlInfo::Team { team_gid, workspace_gid }) => Ok(team_gid),
            Err(e) => Err(e),
        }
    } else {
        Ok(String::from_str(input))
    }
}

} // verus!
