//! Task queries.
//!
//! A [`QueryBuilder`] gathers the filters of a query on the tasks of the
//! warehouse. [`QueryBuilder::build_sql`] writes the query out as a statement
//! with numbered placeholders and the values that stand for them;
//! [`rows_to_csv`] writes rows that came back as comma-separated values.

use crate::sync::events::text_of;
use crate::text::{chars_of, decimal, push_decimal};
use vstd::prelude::*;
use vstd::string::StringExecFns;

verus! {

/// A row from a task query.
#[derive(Debug, Clone, PartialEq, Eq)]
pub struct TaskRow {
    pub task_gid: String,
    pub name: String,
    pub assignee_gid: Option<String>,
    pub assignee_name: Option<String>,
    pub is_completed: bool,
    pub completed_at: Option<String>,
    pub due_on: Option<String>,
    pub created_at: String,
    pub modified_at: Option<String>,
    pub project_name: Option<String>,
    pub section_name: Option<String>,
    pub is_overdue: bool,
    pub days_to_complete: Option<i32>,
    pub num_subtasks: i32,
    pub num_likes: i32,
    pub permalink_url: Option<String>,
}

/// A [`TaskRow`] with its texts as sequences of characters.
pub struct TaskRowView {
    pub task_gid: Seq<char>,
    pub name: Seq<char>,
    pub assignee_gid: Option<Seq<char>>,
    pub assignee_name: Option<Seq<char>>,
    pub is_completed: bool,
    pub completed_at: Option<Seq<char>>,
    pub due_on: Option<Seq<char>>,
    pub created_at: Seq<char>,
    pub modified_at: Option<Seq<char>>,
    pub project_name: Option<Seq<char>>,
    pub section_name: Option<Seq<char>>,
    pub is_overdue: bool,
    pub days_to_complete: Option<i32>,
    pub num_subtasks: i32,
    pub num_likes: i32,
    pub permalink_url: Option<Seq<char>>,
}

impl View for TaskRow {
    type V = TaskRowView;

    open spec fn view(&self) -> TaskRowView {
        TaskRowView {
            task_gid: self.task_gid@,
            name: self.name@,
            assignee_gid: text_of(self.assignee_gid),
            assignee_name: text_of(self.assignee_name),
            is_completed: self.is_completed,
            completed_at: text_of(self.completed_at),
            due_on: text_of(self.due_on),
            created_at: self.created_at@,
            modified_at: text_of(self.modified_at),
            project_name: text_of(self.project_name),
            section_name: text_of(self.section_name),
            is_overdue: self.is_overdue,
            days_to_complete: self.days_to_complete,
            num_subtasks: self.num_subtasks,
            num_likes: self.num_likes,
            permalink_url: text_of(self.permalink_url),
        }
    }
}

/// The rows of a list, as views.
pub open spec fn rows_of(rows: Seq<TaskRow>) -> Seq<TaskRowView> {
    rows.map_values(|r: TaskRow| r@)
}

/// A text with each double quote written twice.
pub open spec fn doubled_quotes(s: Seq<char>) -> Seq<char>
    decreases s.len(),
{
    if s.len() == 0 {
        Seq::empty()
    } else {
        doubled_quotes(s.drop_last()) + (if s.last() == '"' {
            seq!['"', '"']
        } else {
            seq![s.last()]
        })
    }
}

/// Whether a text must be quoted as a cell: it holds a comma, a double
/// quote or a line feed.
pub open spec fn needs_quotes(s: Seq<char>) -> bool {
    exists|i: int| 0 <= i < s.len() && is_special(#[trigger] s[i])
}

/// Whether a character forces the cell that holds it into quotes.
pub open spec fn is_special(c: char) -> bool {
    c == ',' || c == '"' || c == '\n'
}

/// A text as a cell of a line of comma-separated values: as it is, or,
/// where it [`needs_quotes`], between double quotes with each double quote
/// of its own written twice.
pub open spec fn csv_escaped(s: Seq<char>) -> Seq<char> {
    if needs_quotes(s) {
        seq!['"'] + doubled_quotes(s) + seq!['"']
    } else {
        s
    }
}

/// A text as a cell of a line of comma-separated values.
pub fn csv_escape(s: &str) -> (cell: String)
    ensures
        cell@ == csv_escaped(s@),
{
    let chars = chars_of(s);
    let n = chars.len();
    let mut special = false;
    let mut i: usize = 0;
    while i < n
        invariant
            i <= n,
            n == chars.len(),
            chars@ == s@,
            special <==> exists|k: int| 0 <= k < i && is_special(#[trigger] s@[k]),
        decreases n - i,
    {
        let c = chars[i];
        if c == ',' || c == '"' || c == '\n' {
            special = true;
        }
        i += 1;
    }
    if !special {
        return String::from_str(s);
    }
    proof {
        reveal_strlit("\"");
        reveal_strlit("\"\"");
    }
    let mut cell = String::from_str("\"");
    let mut j: usize = 0;
    proof {
        assert(cell@ =~= seq!['"'] + doubled_quotes(s@.take(0)));
    }
    while j < n
        invariant
            j <= n,
            n == chars.len(),
            chars@ == s@,
            cell@ == seq!['"'] + doubled_quotes(s@.take(j as int)),
        decreases n - j,
    {
        let ghost before = cell@;
        proof {
            let upto = s@.take(j + 1);
            assert(upto.drop_last() =~= s@.take(j as int));
            assert(upto.last() == s@[j as int]);
            reveal_strlit("\"\"");
        }
        if chars[j] == '"' {
            cell.append("\"\"");
            proof {
                assert("\"\""@ =~= seq!['"', '"']);
                assert(cell@ =~= seq!['"'] + doubled_quotes(s@.take(j + 1)));
            }
        } else {
            let one = s.substring_char(j, j + 1);
            cell.append(one);
            proof {
                assert(one@ =~= seq![s@[j as int]]);
                assert(cell@ =~= seq!['"'] + doubled_quotes(s@.take(j + 1)));
            }
        }
        j += 1;
    }
    proof {
        assert(s@.take(n as int) =~= s@);
        reveal_strlit("\"");
        assert("\""@ =~= seq!['"']);
    }
    cell.append("\"");
    cell
}

/// An optional text, with nothing for none.
pub open spec fn opt_text(text: Option<Seq<char>>) -> Seq<char> {
    match text {
        Some(t) => t,
        None => Seq::empty(),
    }
}

/// A flag as a word.
pub open spec fn flag_text(flag: bool) -> Seq<char> {
    if flag {
        "true"@
    } else {
        "false"@
    }
}

/// The decimal numeral of a whole number, with a minus sign where it is
/// negative.
pub open spec fn signed_decimal(n: int) -> Seq<char> {
    if n < 0 {
        "-"@ + decimal((-n) as nat)
    } else {
        decimal(n as nat)
    }
}

/// An optional number, with nothing for none.
pub open spec fn opt_number(n: Option<i32>) -> Seq<char> {
    match n {
        Some(v) => signed_decimal(v as int),
        None => Seq::empty(),
    }
}

fn text_or_empty(text: &Option<String>) -> (t: &str)
    ensures
        t@ == opt_text(text_of(*text)),
{
    match text {
        Some(t) => t.as_str(),
        None => {
            proof {
                reveal_strlit("");
                assert(""@ =~= Seq::<char>::empty());
            }
            ""
        },
    }
}

fn flag_string(flag: bool) -> (t: String)
    ensures
        t@ == flag_text(flag),
{
    if flag {
        String::from_str("true")
    } else {
        String::from_str("false")
    }
}

/// The decimal numeral of a whole number, with a minus sign where it is
/// negative.
pub fn signed_decimal_text(n: i32) -> (t: String)
    ensures
        t@ == signed_decimal(n as int),
{
    let mut t = String::new();
    if n < 0 {
        t.append("-");
        let size: i64 = -(n as i64);
        push_decimal(&mut t, size as u64);
        proof {
            assert(t@ =~= signed_decimal(n as int));
        }
    } else {
        push_decimal(&mut t, n as u64);
        proof {
            assert(t@ =~= signed_decimal(n as int));
        }
    }
    t
}

fn opt_number_string(n: Option<i32>) -> (t: String)
    ensures
        t@ == opt_number(n),
{
    match n {
        Some(v) => signed_decimal_text(v),
        None => String::new(),
    }
}

/// The first line of a table of tasks as comma-separated values.
pub const CSV_HEADER: &'static str =
    "task_gid,name,assignee_gid,assignee_name,is_completed,completed_at,due_on,created_at,modified_at,project_name,section_name,is_overdue,days_to_complete,num_subtasks,num_likes,permalink_url\n";

/// The cells of a row, in the order of the columns.
pub open spec fn csv_cells(r: TaskRowView) -> Seq<Seq<char>> {
    seq![
        csv_escaped(r.task_gid),
        csv_escaped(r.name),
        csv_escaped(opt_text(r.assignee_gid)),
        csv_escaped(opt_text(r.assignee_name)),
        flag_text(r.is_completed),
        csv_escaped(opt_text(r.completed_at)),
        csv_escaped(opt_text(r.due_on)),
        csv_escaped(r.created_at),
        csv_escaped(opt_text(r.modified_at)),
        csv_escaped(opt_text(r.project_name)),
        csv_escaped(opt_text(r.section_name)),
        flag_text(r.is_overdue),
        opt_number(r.days_to_complete),
        signed_decimal(r.num_subtasks as int),
        signed_decimal(r.num_likes as int),
        csv_escaped(opt_text(r.permalink_url)),
    ]
}

/// Cells as one line: commas between them and a line feed at the end.
pub open spec fn csv_line(cells: Seq<Seq<char>>) -> Seq<char>
    decreases cells.len(),
{
    if cells.len() == 0 {
        "\n"@
    } else if cells.len() == 1 {
        cells[0] + "\n"@
    } else {
        cells[0] + ","@ + csv_line(cells.drop_first())
    }
}

/// The lines of a list of rows, one after the other.
pub open spec fn csv_lines(rows: Seq<TaskRowView>) -> Seq<char>
    decreases rows.len(),
{
    if rows.len() == 0 {
        Seq::empty()
    } else {
        csv_lines(rows.drop_last()) + csv_line(csv_cells(rows.last()))
    }
}

/// A table of tasks as comma-separated values: the header, then one line
/// for each row.
pub open spec fn csv_text(rows: Seq<TaskRowView>) -> Seq<char> {
    CSV_HEADER@ + csv_lines(rows)
}

/// The cells of a row, in the order of the columns.
fn row_cells(row: &TaskRow) -> (cells: Vec<String>)
    ensures
        crate::sync::events::texts_of(cells@) == csv_cells(row@),
{
    let mut cells: Vec<String> = Vec::new();
    cells.push(csv_escape(row.task_gid.as_str()));
    cells.push(csv_escape(row.name.as_str()));
    cells.push(csv_escape(text_or_empty(&row.assignee_gid)));
    cells.push(csv_escape(text_or_empty(&row.assignee_name)));
    cells.push(flag_string(row.is_completed));
    cells.push(csv_escape(text_or_empty(&row.completed_at)));
    cells.push(csv_escape(text_or_empty(&row.due_on)));
    cells.push(csv_escape(row.created_at.as_str()));
    cells.push(csv_escape(text_or_empty(&row.modified_at)));
    cells.push(csv_escape(text_or_empty(&row.project_name)));
    cells.push(csv_escape(text_or_empty(&row.section_name)));
    cells.push(flag_string(row.is_overdue));
    cells.push(opt_number_string(row.days_to_complete));
    cells.push(signed_decimal_text(row.num_subtasks));
    cells.push(signed_decimal_text(row.num_likes));
    cells.push(csv_escape(text_or_empty(&row.permalink_url)));
    proof {
        assert(crate::sync::events::texts_of(cells@) =~= csv_cells(row@));
    }
    cells
}

/// Appends cells as one line.
fn push_line(out: &mut String, cells: &Vec<String>)
    ensures
        final(out)@ == old(out)@ + csv_line(crate::sync::events::texts_of(cells@)),
{
    let ghost all = crate::sync::events::texts_of(cells@);
    let ghost start = out@;
    let n = cells.len();
    if n == 0 {
        out.append("\n");
        return ;
    }
    let mut i: usize = 0;
    proof {
        assert(all.skip(0) =~= all);
        assert(start + csv_line(all) =~= start + csv_line(all.skip(0)));
    }
    while i + 1 < n
        invariant
            i < n,
            n == cells.len(),
            all == crate::sync::events::texts_of(cells@),
            out@ + csv_line(all.skip(i as int)) == start + csv_line(all),
        decreases n - i,
    {
        let ghost before = out@;
        let ghost rest = all.skip(i as int);
        proof {
            assert(rest[0] == cells[i as int]@);
            assert(rest.drop_first() =~= all.skip(i + 1));
            assert(rest.len() >= 2);
        }
        out.append(cells[i].as_str());
        out.append(",");
        proof {
            assert(out@ + csv_line(all.skip(i + 1)) =~= before + csv_line(rest));
        }
        i += 1;
    }
    let ghost before = out@;
    proof {
        let rest = all.skip(i as int);
        assert(rest.len() == 1);
        assert(rest[0] == cells[i as int]@);
    }
    out.append(cells[i].as_str());
    out.append("\n");
    proof {
        assert(out@ =~= before + csv_line(all.skip(i as int)));
    }
}

/// A table of tasks as comma-separated values.
pub fn rows_to_csv(rows: &[TaskRow]) -> (table: String)
    ensures
        table@ == csv_text(rows_of(rows@)),
{
    let mut table = String::from_str(CSV_HEADER);
    let mut i: usize = 0;
    proof {
        assert(rows_of(rows@).take(0) =~= Seq::<TaskRowView>::empty());
        assert(table@ =~= CSV_HEADER@ + csv_lines(rows_of(rows@).take(0)));
    }
    while i < rows.len()
        invariant
            i <= rows.len(),
            table@ == CSV_HEADER@ + csv_lines(rows_of(rows@).take(i as int)),
        decreases rows.len() - i,
    {
        let ghost before = table@;
        proof {
            let upto = rows_of(rows@).take(i + 1);
            assert(upto.drop_last() =~= rows_of(rows@).take(i as int));
            assert(upto.last() == rows[i as int]@);
        }
        let cells = row_cells(&rows[i]);
        push_line(&mut table, &cells);
        proof {
            assert(table@ =~= CSV_HEADER@ + csv_lines(rows_of(rows@).take(i + 1)));
        }
        i += 1;
    }
    proof {
        assert(rows_of(rows@).take(i as int) =~= rows_of(rows@));
    }
    table
}

/// A value that stands for a placeholder of a statement.
#[derive(Debug, Clone, PartialEq, Eq)]
pub enum SqlValue {
    Text(String),
    Integer(i64),
}

/// A [`SqlValue`] with its text as a sequence of characters.
pub enum SqlValueView {
    Text(Seq<char>),
    Integer(i64),
}

impl View for SqlValue {
    type V = SqlValueView;

    open spec fn view(&self) -> SqlValueView {
        match self {
            SqlValue::Text(t) => SqlValueView::Text(t@),
            SqlValue::Integer(n) => SqlValueView::Integer(*n),
        }
    }
}

/// The values of a list, as views.
pub open spec fn values_of(values: Seq<SqlValue>) -> Seq<SqlValueView> {
    values.map_values(|v: SqlValue| v@)
}

/// Builder for constructing task queries with optional filters.
#[derive(Debug, Clone)]
pub struct QueryBuilder {
    project_gid: Option<String>,
    portfolio_gid: Option<String>,
    team_gid: Option<String>,
    assignee_gid: Option<String>,
    completed: Option<bool>,
    overdue: Option<bool>,
    created_after: Option<String>,
    created_before: Option<String>,
    completed_after: Option<String>,
    completed_before: Option<String>,
    due_after: Option<String>,
    due_before: Option<String>,
    has_assignee: Option<bool>,
    is_subtask: Option<bool>,
    tag_name: Option<String>,
    limit: Option<u32>,
    order_by: Option<String>,
    order_desc: bool,
}

/// A [`QueryBuilder`] with its texts as sequences of characters.
pub struct QueryBuilderView {
    pub project_gid: Option<Seq<char>>,
    pub portfolio_gid: Option<Seq<char>>,
    pub team_gid: Option<Seq<char>>,
    pub assignee_gid: Option<Seq<char>>,
    pub completed: Option<bool>,
    pub overdue: Option<bool>,
    pub created_after: Option<Seq<char>>,
    pub created_before: Option<Seq<char>>,
    pub completed_after: Option<Seq<char>>,
    pub completed_before: Option<Seq<char>>,
    pub due_after: Option<Seq<char>>,
    pub due_before: Option<Seq<char>>,
    pub has_assignee: Option<bool>,
    pub is_subtask: Option<bool>,
    pub tag_name: Option<Seq<char>>,
    pub limit: Option<u32>,
    pub order_by: Option<Seq<char>>,
    pub order_desc: bool,
}

impl View for QueryBuilder {
    type V = QueryBuilderView;

    closed spec fn view(&self) -> QueryBuilderView {
        QueryBuilderView {
            project_gid: text_of(self.project_gid),
            portfolio_gid: text_of(self.portfolio_gid),
            team_gid: text_of(self.team_gid),
            assignee_gid: text_of(self.assignee_gid),
            completed: self.completed,
            overdue: self.overdue,
            created_after: text_of(self.created_after),
            created_before: text_of(self.created_before),
            completed_after: text_of(self.completed_after),
            completed_before: text_of(self.completed_before),
            due_after: text_of(self.due_after),
            due_before: text_of(self.due_before),
            has_assignee: self.has_assignee,
            is_subtask: self.is_subtask,
            tag_name: text_of(self.tag_name),
            limit: self.limit,
            order_by: text_of(self.order_by),
            order_desc: self.order_desc,
        }
    }
}

/// The query without any filter: all tasks, ordered by the time of their
/// last modification, oldest first.
pub open spec fn no_filters() -> QueryBuilderView {
    QueryBuilderView {
        project_gid: None,
        portfolio_gid: None,
        team_gid: None,
        assignee_gid: None,
        completed: None,
        overdue: None,
        created_after: None,
        created_before: None,
        completed_after: None,
        completed_before: None,
        due_after: None,
        due_before: None,
        has_assignee: None,
        is_subtask: None,
        tag_name: None,
        limit: None,
        order_by: None,
        order_desc: false,
    }
}

/// The parts of a statement that depend on the filters: the joins, the
/// conditions, and the values for the placeholders so far.
pub struct SqlPartsView {
    /// The joins, each after a blank.
    pub joins: Seq<char>,
    /// The conditions, with `AND` between them.
    pub wheres: Seq<char>,
    /// Whether there is a condition.
    pub has_where: bool,
    pub params: Seq<SqlValueView>,
}

/// The parts of a statement without filters.
pub open spec fn no_parts() -> SqlPartsView {
    SqlPartsView {
        joins: Seq::empty(),
        wheres: Seq::empty(),
        has_where: false,
        params: Seq::empty(),
    }
}

/// The placeholder with number `n`.
pub open spec fn placeholder(n: nat) -> Seq<char> {
    "?"@ + decimal(n)
}

/// A clause: its text, followed by the next placeholder if it takes a value.
pub open spec fn clause(parts: SqlPartsView, text: Seq<char>, value: Option<SqlValueView>) -> Seq<
    char,
> {
    match value {
        Some(v) => text + placeholder(parts.params.len() + 1),
        None => text,
    }
}

/// The values after a clause.
pub open spec fn params_after(parts: SqlPartsView, value: Option<SqlValueView>) -> Seq<
    SqlValueView,
> {
    match value {
        Some(v) => parts.params.push(v),
        None => parts.params,
    }
}

/// The parts with one more condition.
pub open spec fn with_where(parts: SqlPartsView, text: Seq<char>, value: Option<SqlValueView>)
    -> SqlPartsView {
    SqlPartsView {
        joins: parts.joins,
        wheres: if parts.has_where {
            parts.wheres + " AND "@ + clause(parts, text, value)
        } else {
            clause(parts, text, value)
        },
        has_where: true,
        params: params_after(parts, value),
    }
}

/// The parts with one more join.
pub open spec fn with_join(parts: SqlPartsView, text: Seq<char>, value: Option<SqlValueView>)
    -> SqlPartsView {
    SqlPartsView {
        joins: parts.joins + " "@ + clause(parts, text, value),
        wheres: parts.wheres,
        has_where: parts.has_where,
        params: params_after(parts, value),
    }
}

/// The number that stands for a flag in the store.
pub open spec fn flag_value(flag: bool) -> i64 {
    if flag {
        1
    } else {
        0
    }
}

/// One filter of a query: a join or a condition, with the value it takes,
/// if it takes one.
pub struct FilterView {
    pub join: bool,
    pub text: Seq<char>,
    pub value: Option<SqlValueView>,
}

/// The filter on a text, if the text is set.
pub open spec fn text_filter(value: Option<Seq<char>>, join: bool, text: Seq<char>) -> Seq<
    FilterView,
> {
    match value {
        Some(v) => seq![FilterView { join, text, value: Some(SqlValueView::Text(v)) }],
        None => Seq::empty(),
    }
}

/// The condition on a flag, if the flag is set.
pub open spec fn flag_filter(value: Option<bool>, text: Seq<char>) -> Seq<FilterView> {
    match value {
        Some(v) => seq![
            FilterView { join: false, text, value: Some(SqlValueView::Integer(flag_value(v))) },
        ],
        None => Seq::empty(),
    }
}

/// The condition on whether a task has an assignee, if one is asked for.
pub open spec fn presence_filter(value: Option<bool>) -> Seq<FilterView> {
    match value {
        Some(has) => seq![
            FilterView {
                join: false,
                text: if has {
                    "t.assignee_gid IS NOT NULL"@
                } else {
                    "t.assignee_gid IS NULL"@
                },
                value: None,
            },
        ],
        None => Seq::empty(),
    }
}

/// The filters of a query, in the order in which they enter the statement.
pub open spec fn filters_of(q: QueryBuilderView) -> Seq<FilterView> {
    text_filter(q.project_gid, false, "btp.project_gid = "@)
        + text_filter(q.portfolio_gid, true, "JOIN bridge_portfolio_projects bpp ON bpp.project_gid = btp.project_gid AND bpp.portfolio_gid = "@)
        + text_filter(q.team_gid, true, "JOIN bridge_team_members btm ON btm.user_gid = t.assignee_gid AND btm.team_gid = "@)
        + text_filter(q.assignee_gid, false, "t.assignee_gid = "@)
        + flag_filter(q.completed, "t.is_completed = "@)
        + flag_filter(q.overdue, "t.is_overdue = "@)
        + text_filter(q.created_after, false, "t.created_date_key >= "@)
        + text_filter(q.created_before, false, "t.created_date_key <= "@)
        + text_filter(q.completed_after, false, "t.completed_date_key >= "@)
        + text_filter(q.completed_before, false, "t.completed_date_key <= "@)
        + text_filter(q.due_after, false, "t.due_on >= "@)
        + text_filter(q.due_before, false, "t.due_on <= "@)
        + presence_filter(q.has_assignee)
        + flag_filter(q.is_subtask, "t.is_subtask = "@)
        + text_filter(q.tag_name, true, "JOIN bridge_task_tags btt ON btt.task_gid = t.task_gid AND btt.tag_name = "@)
}

/// The parts with one more filter.
pub open spec fn with_filter(parts: SqlPartsView, filter: FilterView) -> SqlPartsView {
    if filter.join {
        with_join(parts, filter.text, filter.value)
    } else {
        with_where(parts, filter.text, filter.value)
    }
}

/// The parts with more filters, one after the other.
pub open spec fn with_filters(parts: SqlPartsView, filters: Seq<FilterView>) -> SqlPartsView
    decreases filters.len(),
{
    if filters.len() == 0 {
        parts
    } else {
        with_filter(with_filters(parts, filters.drop_last()), filters.last())
    }
}

/// The joins, conditions and values of a query.
pub open spec fn filter_parts(q: QueryBuilderView) -> SqlPartsView {
    with_filters(no_parts(), filters_of(q))
}

/// The columns and tables that every task query reads.
pub open spec fn select_text() -> Seq<char> {
    SELECT_TASKS@
}

/// The column by which a query orders its rows.
pub open spec fn order_column(q: QueryBuilderView) -> Seq<char> {
    match q.order_by {
        Some(field) => field,
        None => "t.modified_at"@,
    }
}

/// The conditions of a statement, after their keyword, if there are any.
pub open spec fn where_text(parts: SqlPartsView) -> Seq<char> {
    if parts.has_where {
        " WHERE "@ + parts.wheres
    } else {
        Seq::empty()
    }
}

/// The ordering of a statement.
pub open spec fn order_text(q: QueryBuilderView) -> Seq<char> {
    " ORDER BY "@ + order_column(q) + " "@ + (if q.order_desc {
        "DESC"@
    } else {
        "ASC"@
    })
}

/// The limit of a statement, if the query has one; its value takes the
/// placeholder after the `taken` that the filters take.
pub open spec fn limit_text(q: QueryBuilderView, taken: nat) -> Seq<char> {
    match q.limit {
        Some(n) => " LIMIT "@ + placeholder(taken + 1),
        None => Seq::empty(),
    }
}

/// The statement of a query.
pub open spec fn sql_text(q: QueryBuilderView) -> Seq<char> {
    let parts = filter_parts(q);
    select_text() + parts.joins + where_text(parts) + " GROUP BY t.task_gid"@ + order_text(q)
        + limit_text(q, parts.params.len())
}

/// The values for the placeholders of the statement of a query.
pub open spec fn sql_params(q: QueryBuilderView) -> Seq<SqlValueView> {
    let parts = filter_parts(q);
    match q.limit {
        Some(n) => parts.params.push(SqlValueView::Integer(n as i64)),
        None => parts.params,
    }
}

/// The columns and tables that every task query reads.
pub const SELECT_TASKS: &'static str =
    "SELECT t.task_gid, t.name, t.assignee_gid, u.name as assignee_name,
                t.is_completed, t.completed_at, t.due_on, t.created_at, t.modified_at,
                p.name as project_name, s.name as section_name,
                t.is_overdue, t.days_to_complete, t.num_subtasks, t.num_likes,
                t.permalink_url
            FROM fact_tasks t
            LEFT JOIN dim_users u ON u.user_gid = t.assignee_gid
            LEFT JOIN bridge_task_projects btp ON btp.task_gid = t.task_gid
            LEFT JOIN dim_projects p ON p.project_gid = btp.project_gid
            LEFT JOIN dim_sections s ON s.section_gid = btp.section_gid";

/// One filter of a query.
struct Filter {
    join: bool,
    text: &'static str,
    value: Option<SqlValue>,
}

impl View for Filter {
    type V = FilterView;

    closed spec fn view(&self) -> FilterView {
        FilterView {
            join: self.join,
            text: self.text@,
            value: match self.value {
                Some(v) => Some(v@),
                None => None,
            },
        }
    }
}

/// The filters of a list, as views.
closed spec fn filter_views(filters: Seq<Filter>) -> Seq<FilterView> {
    filters.map_values(|f: Filter| f@)
}

fn add_text(filters: &mut Vec<Filter>, value: &Option<String>, join: bool, text: &'static str)
    ensures
        filter_views(final(filters)@) == filter_views(old(filters)@) + text_filter(
            text_of(*value),
            join,
            text@,
        ),
{
    let ghost before = filter_views(filters@);
    match value {
        Some(v) => {
            filters.push(Filter { join, text, value: Some(SqlValue::Text(v.clone())) });
            proof {
                assert(filter_views(filters@) =~= before + text_filter(
                    text_of(*value),
                    join,
                    text@,
                ));
            }
        },
        None => {
            proof {
                assert(before =~= before + Seq::<FilterView>::empty());
            }
        },
    }
}

fn add_flag(filters: &mut Vec<Filter>, value: Option<bool>, text: &'static str)
    ensures
        filter_views(final(filters)@) == filter_views(old(filters)@) + flag_filter(value, text@),
{
    let ghost before = filter_views(filters@);
    match value {
        Some(v) => {
            let number: i64 = if v {
                1
            } else {
                0
            };
            filters.push(Filter { join: false, text, value: Some(SqlValue::Integer(number)) });
            proof {
                assert(filter_views(filters@) =~= before + flag_filter(value, text@));
            }
        },
        None => {
            proof {
                assert(before =~= before + Seq::<FilterView>::empty());
            }
        },
    }
}

fn add_presence(filters: &mut Vec<Filter>, value: Option<bool>)
    ensures
        filter_views(final(filters)@) == filter_views(old(filters)@) + presence_filter(value),
{
    let ghost before = filter_views(filters@);
    match value {
        Some(has) => {
            let text = if has {
                "t.assignee_gid IS NOT NULL"
            } else {
                "t.assignee_gid IS NULL"
            };
            filters.push(Filter { join: false, text, value: None });
            proof {
                assert(filter_views(filters@) =~= before + presence_filter(value));
            }
        },
        None => {
            proof {
                assert(before =~= before + Seq::<FilterView>::empty());
            }
        },
    }
}

struct SqlParts {
    joins: String,
    wheres: String,
    has_where: bool,
    params: Vec<SqlValue>,
}

impl View for SqlParts {
    type V = SqlPartsView;

    closed spec fn view(&self) -> SqlPartsView {
        SqlPartsView {
            joins: self.joins@,
            wheres: self.wheres@,
            has_where: self.has_where,
            params: values_of(self.params@),
        }
    }
}

impl SqlParts {
    fn new() -> (parts: SqlParts)
        ensures
            parts@ == no_parts(),
            parts.params.len() == 0,
    {
        let parts = SqlParts {
            joins: String::new(),
            wheres: String::new(),
            has_where: false,
            params: Vec::new(),
        };
        proof {
            assert(values_of(parts.params@) =~= Seq::<SqlValueView>::empty());
        }
        parts
    }

    /// Appends a clause to `out`, and its value to the values.
    fn push_clause(out: &mut String, params: &mut Vec<SqlValue>, text: &str, value: Option<SqlValue>)
        requires
            old(params).len() < u64::MAX,
        ensures
            final(out)@ == old(out)@ + (match value {
                Some(v) => text@ + placeholder((old(params).len() + 1) as nat),
                None => text@,
            }),
            values_of(final(params)@) == (match value {
                Some(v) => values_of(old(params)@).push(v@),
                None => values_of(old(params)@),
            }),
            final(params).len() <= old(params).len() + 1,
    {
        let ghost before = out@;
        let ghost values = values_of(params@);
        out.append(text);
        match value {
            Some(v) => {
                out.append("?");
                push_decimal(out, params.len() as u64 + 1);
                params.push(v);
                proof {
                    assert(values_of(params@) =~= values.push(v@));
                    assert(out@ =~= before + (text@ + placeholder((values.len() + 1) as nat)));
                }
            },
            None => {},
        }
    }

    fn with_where(self, text: &str, value: Option<SqlValue>) -> (parts: SqlParts)
        requires
            self.params.len() < u64::MAX,
        ensures
            parts@ == with_where(
                self@,
                text@,
                match value {
                    Some(v) => Some(v@),
                    None => None,
                },
            ),
            parts.params.len() <= self.params.len() + 1,
    {
        let SqlParts { joins, wheres, has_where, params } = self;
        let mut wheres = wheres;
        let mut params = params;
        let ghost before = wheres@;
        if has_where {
            wheres.append(" AND ");
            SqlParts::push_clause(&mut wheres, &mut params, text, value);
            proof {
                let first = SqlPartsView {
                    joins: joins@,
                    wheres: before,
                    has_where,
                    params: values_of(self.params@),
                };
                assert(wheres@ =~= before + " AND "@ + clause(
                    first,
                    text@,
                    match value {
                        Some(v) => Some(v@),
                        None => None,
                    },
                ));
            }
        } else {
            let mut fresh = String::new();
            SqlParts::push_clause(&mut fresh, &mut params, text, value);
            proof {
                let first = SqlPartsView {
                    joins: joins@,
                    wheres: before,
                    has_where,
                    params: values_of(self.params@),
                };
                assert(fresh@ =~= clause(
                    first,
                    text@,
                    match value {
                        Some(v) => Some(v@),
                        None => None,
                    },
                ));
            }
            wheres = fresh;
        }
        SqlParts { joins, wheres, has_where: true, params }
    }

    fn with_join(self, text: &str, value: Option<SqlValue>) -> (parts: SqlParts)
        requires
            self.params.len() < u64::MAX,
        ensures
            parts@ == with_join(
                self@,
                text@,
                match value {
                    Some(v) => Some(v@),
                    None => None,
                },
            ),
            parts.params.len() <= self.params.len() + 1,
    {
        let SqlParts { joins, wheres, has_where, params } = self;
        let mut joins = joins;
        let mut params = params;
        let ghost before = joins@;
        joins.append(" ");
        SqlParts::push_clause(&mut joins, &mut params, text, value);
        proof {
            let first = SqlPartsView {
                joins: before,
                wheres: wheres@,
                has_where,
                params: values_of(self.params@),
            };
            assert(joins@ =~= before + " "@ + clause(
                first,
                text@,
                match value {
                    Some(v) => Some(v@),
                    None => None,
                },
            ));
        }
        SqlParts { joins, wheres, has_where, params }
    }
}

impl QueryBuilder {
    /// The query without any filter.
    pub fn new() -> (query: QueryBuilder)
        ensures
            query@ == no_filters(),
    {
        QueryBuilder {
            project_gid: None,
            portfolio_gid: None,
            team_gid: None,
            assignee_gid: None,
            completed: None,
            overdue: None,
            created_after: None,
            created_before: None,
            completed_after: None,
            completed_before: None,
            due_after: None,
            due_before: None,
            has_assignee: None,
            is_subtask: None,
            tag_name: None,
            limit: None,
            order_by: None,
            order_desc: false,
        }
    }

    /// Keep the tasks of this project.
    pub fn project(self, gid: &str) -> (query: QueryBuilder)
        ensures
            query@ == (QueryBuilderView { project_gid: Some(gid@), ..self@ }),
    {
        QueryBuilder { project_gid: Some(String::from_str(gid)), ..self }
    }

    /// Keep the tasks of the projects of this portfolio.
    pub fn portfolio(self, gid: &str) -> (query: QueryBuilder)
        ensures
            query@ == (QueryBuilderView { portfolio_gid: Some(gid@), ..self@ }),
    {
        QueryBuilder { portfolio_gid: Some(String::from_str(gid)), ..self }
    }

    /// Keep the tasks assigned to a member of this team.
    pub fn team(self, gid: &str) -> (query: QueryBuilder)
        ensures
            query@ == (QueryBuilderView { team_gid: Some(gid@), ..self@ }),
    {
        QueryBuilder { team_gid: Some(String::from_str(gid)), ..self }
    }

    /// Keep the tasks assigned to this user.
    pub fn assignee(self, gid: &str) -> (query: QueryBuilder)
        ensures
            query@ == (QueryBuilderView { assignee_gid: Some(gid@), ..self@ }),
    {
        QueryBuilder { assignee_gid: Some(String::from_str(gid)), ..self }
    }

    /// Keep the completed tasks, or those not completed.
    pub fn completed(self, val: bool) -> (query: QueryBuilder)
        ensures
            query@ == (QueryBuilderView { completed: Some(val), ..self@ }),
    {
        QueryBuilder { completed: Some(val), ..self }
    }

    /// Keep the overdue tasks, or those not overdue.
    pub fn overdue(self, val: bool) -> (query: QueryBuilder)
        ensures
            query@ == (QueryBuilderView { overdue: Some(val), ..self@ }),
    {
        QueryBuilder { overdue: Some(val), ..self }
    }

    /// Keep the tasks created on or after this day.
    pub fn created_after(self, date: &str) -> (query: QueryBuilder)
        ensures
            query@ == (QueryBuilderView { created_after: Some(date@), ..self@ }),
    {
        QueryBuilder { created_after: Some(String::from_str(date)), ..self }
    }

    /// Keep the tasks created on or before this day.
    pub fn created_before(self, date: &str) -> (query: QueryBuilder)
        ensures
            query@ == (QueryBuilderView { created_before: Some(date@), ..self@ }),
    {
        QueryBuilder { created_before: Some(String::from_str(date)), ..self }
    }

    /// Keep the tasks completed on or after this day.
    pub fn completed_after(self, date: &str) -> (query: QueryBuilder)
        ensures
            query@ == (QueryBuilderView { completed_after: Some(date@), ..self@ }),
    {
        QueryBuilder { completed_after: Some(String::from_str(date)), ..self }
    }

    /// Keep the tasks completed on or before this day.
    pub fn completed_before(self, date: &str) -> (query: QueryBuilder)
        ensures
            query@ == (QueryBuilderView { completed_before: Some(date@), ..self@ }),
    {
        QueryBuilder { completed_before: Some(String::from_str(date)), ..self }
    }

    /// Keep the tasks due on or after this day.
    pub fn due_after(self, date: &str) -> (query: QueryBuilder)
        ensures
            query@ == (QueryBuilderView { due_after: Some(date@), ..self@ }),
    {
        QueryBuilder { due_after: Some(String::from_str(date)), ..self }
    }

    /// Keep the tasks due on or before this day.
    pub fn due_before(self, date: &str) -> (query: QueryBuilder)
        ensures
            query@ == (QueryBuilderView { due_before: Some(date@), ..self@ }),
    {
        QueryBuilder { due_before: Some(String::from_str(date)), ..self }
    }

    /// Keep the tasks that have an assignee, or those that have none.
    pub fn has_assignee(self, val: bool) -> (query: QueryBuilder)
        ensures
            query@ == (QueryBuilderView { has_assignee: Some(val), ..self@ }),
    {
        QueryBuilder { has_assignee: Some(val), ..self }
    }

    /// Keep the subtasks, or the tasks that are none.
    pub fn is_subtask(self, val: bool) -> (query: QueryBuilder)
        ensures
            query@ == (QueryBuilderView { is_subtask: Some(val), ..self@ }),
    {
        QueryBuilder { is_subtask: Some(val), ..self }
    }

    /// Keep the tasks that carry this tag.
    pub fn tag(self, name: &str) -> (query: QueryBuilder)
        ensures
            query@ == (QueryBuilderView { tag_name: Some(name@), ..self@ }),
    {
        QueryBuilder { tag_name: Some(String::from_str(name)), ..self }
    }

    /// Return at most so many tasks.
    pub fn limit(self, n: u32) -> (query: QueryBuilder)
        ensures
            query@ == (QueryBuilderView { limit: Some(n), ..self@ }),
    {
        QueryBuilder { limit: Some(n), ..self }
    }

    /// Order the tasks by this column.
    pub fn order_by(self, field: &str) -> (query: QueryBuilder)
        ensures
            query@ == (QueryBuilderView { order_by: Some(field@), ..self@ }),
    {
        QueryBuilder { order_by: Some(String::from_str(field)), ..self }
    }

    /// Order the tasks from last to first.
    pub fn descending(self) -> (query: QueryBuilder)
        ensures
            query@ == (QueryBuilderView { order_desc: true, ..self@ }),
    {
        QueryBuilder { order_desc: true, ..self }
    }

    fn filters(&self) -> (filters: Vec<Filter>)
        ensures
            filter_views(filters@) == filters_of(self@),
    {
        let mut filters: Vec<Filter> = Vec::new();
        proof {
            assert(filter_views(filters@) =~= Seq::<FilterView>::empty());
        }
        add_text(&mut filters, &self.project_gid, false, "btp.project_gid = ");
        add_text(&mut filters, &self.portfolio_gid, true, "JOIN bridge_portfolio_projects bpp ON bpp.project_gid = btp.project_gid AND bpp.portfolio_gid = ");
        add_text(&mut filters, &self.team_gid, true, "JOIN bridge_team_members btm ON btm.user_gid = t.assignee_gid AND btm.team_gid = ");
        add_text(&mut filters, &self.assignee_gid, false, "t.assignee_gid = ");
        add_flag(&mut filters, self.completed, "t.is_completed = ");
        add_flag(&mut filters, self.overdue, "t.is_overdue = ");
        add_text(&mut filters, &self.created_after, false, "t.created_date_key >= ");
        add_text(&mut filters, &self.created_before, false, "t.created_date_key <= ");
        add_text(&mut filters, &self.completed_after, false, "t.completed_date_key >= ");
        add_text(&mut filters, &self.completed_before, false, "t.completed_date_key <= ");
        add_text(&mut filters, &self.due_after, false, "t.due_on >= ");
        add_text(&mut filters, &self.due_before, false, "t.due_on <= ");
        add_presence(&mut filters, self.has_assignee);
        add_flag(&mut filters, self.is_subtask, "t.is_subtask = ");
        add_text(&mut filters, &self.tag_name, true, "JOIN bridge_task_tags btt ON btt.task_gid = t.task_gid AND btt.tag_name = ");
        proof {
            assert(filter_views(filters@) =~= filters_of(self@));
        }
        filters
    }

    fn filter_parts(&self) -> (parts: SqlParts)
        ensures
            parts@ == filter_parts(self@),
            parts.params.len() < u64::MAX,
    {
        let filters = self.filters();
        let mut parts = SqlParts::new();
        let mut i: usize = 0;
        proof {
            assert(filter_views(filters@).take(0) =~= Seq::<FilterView>::empty());
        }
        while i < filters.len()
            invariant
                i <= filters.len(),
                parts.params.len() <= i,
                parts@ == with_filters(no_parts(), filter_views(filters@).take(i as int)),
            decreases filters.len() - i,
        {
            proof {
                let upto = filter_views(filters@).take(i + 1);
                assert(upto.drop_last() =~= filter_views(filters@).take(i as int));
                assert(upto.last() == filters[i as int]@);
            }
            let value = match &filters[i].value {
                Some(SqlValue::Text(t)) => Some(SqlValue::Text(t.clone())),
                Some(SqlValue::Integer(n)) => Some(SqlValue::Integer(*n)),
                None => None,
            };
            parts = if filters[i].join {
                parts.with_join(filters[i].text, value)
            } else {
                parts.with_where(filters[i].text, value)
            };
            i += 1;
        }
        proof {
            assert(filter_views(filters@).take(i as int) =~= filter_views(filters@));
        }
        parts
    }

    fn order_clause(&self) -> (text: String)
        ensures
            text@ == order_text(self@),
    {
        let mut text = String::from_str(" ORDER BY ");
        match &self.order_by {
            Some(field) => text.append(field.as_str()),
            None => text.append("t.modified_at"),
        }
        text.append(" ");
        if self.order_desc {
            text.append("DESC");
        } else {
            text.append("ASC");
        }
        text
    }

    /// The statement of the query, with a numbered placeholder for each
    /// value, and the values in the order of their numbers.
    pub fn build_sql(&self) -> (r: (String, Vec<SqlValue>))
        ensures
            r.0@ == sql_text(self@),
            values_of(r.1@) == sql_params(self@),
    {
        let parts = self.filter_parts();
        let ghost model = parts@;
        let SqlParts { joins, wheres, has_where, params } = parts;
        let mut params = params;
        let mut sql = String::from_str(SELECT_TASKS);
        sql.append(joins.as_str());
        if has_where {
            sql.append(" WHERE ");
            sql.append(wheres.as_str());
        }
        proof {
            assert(sql@ =~= select_text() + model.joins + where_text(model));
        }
        sql.append(" GROUP BY t.task_gid");
        let order = self.order_clause();
        sql.append(order.as_str());
        let ghost ordered = sql@;
        match self.limit {
            Some(n) => {
                let ghost values = values_of(params@);
                sql.append(" LIMIT ");
                sql.append("?");
                push_decimal(&mut sql, params.len() as u64 + 1);
                params.push(SqlValue::Integer(n as i64));
                proof {
                    assert(values_of(params@) =~= values.push(SqlValueView::Integer(n as i64)));
                    assert(sql@ =~= ordered + limit_text(self@, model.params.len()));
                }
            },
            None => {
                proof {
                    assert(sql@ =~= ordered + limit_text(self@, model.params.len()));
                }
            },
        }
        (sql, params)
    }
}

impl Default for QueryBuilder {
    fn default() -> (query: QueryBuilder)
        ensures
            query@ == no_filters(),
    {
        QueryBuilder::new()
    }
}

} // verus!
