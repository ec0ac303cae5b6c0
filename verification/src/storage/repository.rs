//! Rows of the store and the values derived for them.

use crate::date::{parsed_ymd, Date};
use crate::sync::events::text_of;
use vstd::prelude::*;
use vstd::string::StringExecFns;
use vstd::string::StringSliceAdditionalSpecFns;
use vstd::utf8::{decode_utf8, encode_utf8, encode_utf8_decode_utf8, is_char_boundary};

verus! {

/// An entity that the warehouse keeps in sync.
///
/// A row with `sync_enabled` unset is no target of its own: it only gives an
/// entity that a sync touches on its way (a project found through a
/// portfolio) a place for its cursor and its last sync time.
#[derive(Debug, Clone, PartialEq, Eq)]
pub struct MonitoredEntity {
    /// The entity's type and id, joined by a colon. No two rows share a key.
    pub entity_key: String,
    /// One of `project`, `user`, `team`, `portfolio`.
    pub entity_type: String,
    pub entity_gid: String,
    pub display_name: Option<String>,
    pub added_at: String,
    pub last_sync_at: Option<String>,
    pub sync_enabled: bool,
}

/// A [`MonitoredEntity`] with its texts as sequences of characters.
pub struct MonitoredEntityView {
    pub entity_key: Seq<char>,
    pub entity_type: Seq<char>,
    pub entity_gid: Seq<char>,
    pub display_name: Option<Seq<char>>,
    pub added_at: Seq<char>,
    pub last_sync_at: Option<Seq<char>>,
    pub sync_enabled: bool,
}

impl View for MonitoredEntity {
    type V = MonitoredEntityView;

    open spec fn view(&self) -> MonitoredEntityView {
        MonitoredEntityView {
            entity_key: self.entity_key@,
            entity_type: self.entity_type@,
            entity_gid: self.entity_gid@,
            display_name: text_of(self.display_name),
            added_at: self.added_at@,
            last_sync_at: text_of(self.last_sync_at),
            sync_enabled: self.sync_enabled,
        }
    }
}

/// The entities of a list, as views.
pub open spec fn entities_of(entities: Seq<MonitoredEntity>) -> Seq<MonitoredEntityView> {
    entities.map_values(|e: MonitoredEntity| e@)
}

/// Whether a custom field of a task holds anything worth a row: a value to
/// show, a text, a number, or a choice.
pub fn has_meaningful_value(
    display_value: &str,
    has_text: bool,
    has_number: bool,
    has_enum: bool,
    has_multi_enum: bool,
) -> (meaningful: bool)
    ensures
        meaningful == (display_value@.len() > 0 || has_text || has_number || has_enum
            || has_multi_enum),
{
    !display_value.is_empty() || has_text || has_number || has_enum || has_multi_enum
}

/// How many bytes the day takes at the start of a time stamp.
pub const DATE_KEY_BYTES: usize = 10;

/// How many bytes a text takes, as `str::len` counts them.
pub open spec fn byte_len(text: Seq<char>) -> usize {
    encode_utf8(text).len() as usize
}

/// Whether the day can be cut off a time stamp: the stamp is shorter than a
/// day is written, or its first ten bytes end with a whole character.
pub open spec fn has_date_key(iso: Seq<char>) -> bool {
    byte_len(iso) >= DATE_KEY_BYTES ==> is_char_boundary(encode_utf8(iso), DATE_KEY_BYTES as int)
}

/// The day of a time stamp: the text of its first ten bytes, or all of it
/// where it is shorter.
pub open spec fn date_key_of(iso: Seq<char>) -> Seq<char> {
    if byte_len(iso) >= DATE_KEY_BYTES {
        decode_utf8(encode_utf8(iso).subrange(0, DATE_KEY_BYTES as int))
    } else {
        iso
    }
}

/// Extract the day, `YYYY-MM-DD`, from a time stamp. The first ten bytes of
/// the stamp must end with a whole character.
pub fn date_key_from_iso(iso: &str) -> (key: String)
    requires
        has_date_key(iso@),
    ensures
        key@ == date_key_of(iso@),
{
    if iso.len() >= DATE_KEY_BYTES {
        let (head, _) = iso.split_at(DATE_KEY_BYTES);
        proof {
            encode_utf8_decode_utf8(head@);
        }
        String::from_str(head)
    } else {
        String::from_str(iso)
    }
}

/// Whether a time stamp can be handed to [`date_key_from_iso`].
pub fn can_take_date_key(iso: &str) -> (ok: bool)
    ensures
        ok == has_date_key(iso@),
{
    iso.len() < DATE_KEY_BYTES || iso.is_char_boundary(DATE_KEY_BYTES)
}

/// The days from the creation of a task to its completion, given the day of
/// each as it was read from its time stamp; `None` where one of them could
/// not be read.
pub fn days_to_complete(created: Option<Date>, done: Option<Date>) -> (days: Option<i32>)
    ensures
        days == match (created, done) {
            (Some(c), Some(d)) => Some((d@ - c@) as i32),
            _ => None,
        },
{
    match (created, done) {
        (Some(c), Some(d)) => Some(d.days_from_ce() - c.days_from_ce()),
        _ => None,
    }
}

/// The days from the creation of a task to its completion: none while the
/// task is not completed, or where the day of one of the time stamps cannot
/// be read.
pub fn compute_days_to_complete(created_at: &str, completed_at: Option<&str>) -> (days: Option<
    i32,
>)
    requires
        has_date_key(created_at@),
        completed_at matches Some(c) ==> has_date_key(c@),
    ensures
        days == match completed_at {
            Some(done) => match (
                parsed_ymd(date_key_of(created_at@)),
                parsed_ymd(date_key_of(done@)),
            ) {
                (Some(c), Some(d)) => Some((d - c) as i32),
                _ => None,
            },
            None => None,
        },
{
    match completed_at {
        None => None,
        Some(done) => {
            let from = date_key_from_iso(created_at);
            let to = date_key_from_iso(done);
            let created = Date::parse_ymd(from.as_str());
            let completed = Date::parse_ymd(to.as_str());
            days_to_complete(created, completed)
        },
    }
}

/// Whether a task is overdue on the day `today`: it is not completed and its
/// due day, where it has one that can be read, is before `today`.
pub open spec fn overdue_on(completed: bool, due: Option<int>, today: int) -> bool {
    !completed && match due {
        Some(day) => today > day,
        None => false,
    }
}

/// Whether a task is overdue on the day `today`, given its due day as it was
/// read, if it has one that could be read.
pub fn is_overdue_on(completed: bool, due: Option<Date>, today: Date) -> (overdue: bool)
    ensures
        overdue == overdue_on(completed, crate::sync::gap::day_of(due), today@),
{
    if completed {
        return false;
    }
    match due {
        Some(day) => day.is_before(&today),
        None => false,
    }
}

/// Whether a task is overdue on the day `today`. A completed task never is;
/// nor is one without a due day, or with one that cannot be read.
pub fn compute_is_overdue(completed: bool, due_on: Option<&str>, today: Date) -> (overdue: bool)
    ensures
        overdue == overdue_on(
            completed,
            match due_on {
                Some(text) => parsed_ymd(text@),
                None => None,
            },
            today@,
        ),
{
    if completed {
        return false;
    }
    let due = match due_on {
        Some(text) => Date::parse_ymd(text),
        None => None,
    };
    is_overdue_on(completed, due, today)
}

} // verus!
