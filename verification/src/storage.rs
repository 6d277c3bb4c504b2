//! What storage decides before it talks to the database: which tables to create, the text
//! of the filter queries, and the checks on ids and settings that end an operation early.

use vstd::prelude::*;
use crate::event::Event;
use crate::task::{Tag, Task};
use crate::text::{push_str, push_char};

verus! {

/// Errors of storage.
#[derive(Debug, Clone)]
pub enum DataBaseError {
    ForeignKeyUpdateFailed(u8),
    TaskIdMissing(String),
    TagIdMissing(String),
    EventIdMissing(String),
}

/// The tables (and the view) that storage needs, in the order in which they are created.
pub open spec fn needed_tables() -> Seq<Seq<char>> {
    seq!["tasks"@, "events"@, "tags"@, "task_tags"@, "task_view"@]
}

pub open spec fn tasks_table_query() -> Seq<char> {
    "
                    CREATE TABLE tasks (
                        id INTEGER PRIMARY KEY NOT NULL,
                        title TEXT,
                        description TEXT,
                        severity INTEGER DEFAULT 0,
                        status TEXT NOT NULL,
                        creation_date TEXT NOT NULL,
                        due_date TEXT,
                        reminder_date TEXT,
                        timer_start TEXT,
                        time_taken TEXT
                    );"@
}

pub open spec fn events_table_query() -> Seq<char> {
    "
                    CREATE TABLE events (
                        id INTEGER PRIMARY KEY NOT NULL,
                        title TEXT,
                        description TEXT,
                        duration TEXT,
                        date TEXT,
                        recurrence_interval TEXT,
                        recurrence_end TEXT,
                        skipped_dates TEXT
                    );"@
}

pub open spec fn tags_table_query() -> Seq<char> {
    "
                    CREATE TABLE tags (
                        id INTEGER PRIMARY KEY NOT NULL,
                        text TEXT UNIQUE
                    );"@
}

pub open spec fn task_tags_table_query() -> Seq<char> {
    "
                    CREATE TABLE task_tags (
                        task_id INTEGER,
                        tag_id INTEGER,
                        FOREIGN KEY (task_id) REFERENCES tasks(id) ON UPDATE CASCADE ON DELETE CASCADE,
                        FOREIGN KEY (tag_id) REFERENCES tags(id) ON UPDATE CASCADE ON DELETE CASCADE,
                        PRIMARY KEY (task_id, tag_id)
                    );"@
}

pub open spec fn drop_task_view_query() -> Seq<char> {
    "
                        DROP VIEW IF EXISTS task_view;
                    "@
}

pub open spec fn task_view_query() -> Seq<char> {
    "
                        CREATE VIEW task_view AS SELECT 
                            t.id,
                            t.title,
                            t.description,
                            t.severity,
                            t.status,
                            t.creation_date,
                            t.due_date,
                            t.reminder_date,
                            t.timer_start,
                            t.time_taken,
                            printf('%02d', (json_extract(t.time_taken, '$[0]')/(3600))) || ':' ||
                            printf('%02d', ((json_extract(t.time_taken, '$[0]')%3600) / 60)) || ':' ||
                            printf('%02d', json_extract(t.time_taken, '$[0]') % 60) AS time_taken_readable,
                            '[' || IFNULL(GROUP_CONCAT('\"' || tag.text || '\"', ','), '') || ']' AS tags,
                            '[' || IFNULL(GROUP_CONCAT(tag.id, ','), '') || ']' AS tag_ids
                        FROM 
                            tasks t
                        LEFT JOIN 
                            task_tags tt ON t.id = tt.task_id
                        LEFT JOIN 
                            tags tag ON tt.tag_id = tag.id
                        GROUP BY 
                            t.id;
                        "@
}

/// The queries that create one of the needed tables.
pub open spec fn creation_queries_of(name: Seq<char>) -> Seq<Seq<char>> {
    if name == "tasks"@ {
        seq![tasks_table_query()]
    } else if name == "events"@ {
        seq![events_table_query()]
    } else if name == "tags"@ {
        seq![tags_table_query()]
    } else if name == "task_tags"@ {
        seq![task_tags_table_query()]
    } else if name == "task_view"@ {
        seq![drop_task_view_query(), task_view_query()]
    } else {
        Seq::empty()
    }
}

/// The creation queries, in order, of the first `k` needed tables that are not among `existing`.
pub open spec fn creation_queries(existing: Seq<Seq<char>>, k: int) -> Seq<Seq<char>>
    decreases k,
{
    if k <= 0 {
        Seq::empty()
    } else {
        let prev = creation_queries(existing, k - 1);
        let name = needed_tables()[k - 1];
        if existing.contains(name) {
            prev
        } else {
            prev + creation_queries_of(name)
        }
    }
}

fn queries_of(name: &str) -> (r: Vec<String>)
    ensures
        r@.map_values(|q: String| q@) == creation_queries_of(name@),
{
    let mut r: Vec<String> = Vec::new();
    let w = crate::parser::chars_of(name);
    if crate::text::eq_text(&w, "tasks") {
        r.push(tasks_table_query_exec());
    } else if crate::text::eq_text(&w, "events") {
        r.push(events_table_query_exec());
    } else if crate::text::eq_text(&w, "tags") {
        r.push(tags_table_query_exec());
    } else if crate::text::eq_text(&w, "task_tags") {
        r.push(task_tags_table_query_exec());
    } else if crate::text::eq_text(&w, "task_view") {
        r.push(drop_task_view_query_exec());
        r.push(task_view_query_exec());
    }
    assert(r@.map_values(|q: String| q@) =~= creation_queries_of(name@));
    r
}

fn tasks_table_query_exec() -> (r: String)
    ensures
        r@ == tasks_table_query(),
{
    "
                    CREATE TABLE tasks (
                        id INTEGER PRIMARY KEY NOT NULL,
                        title TEXT,
                        description TEXT,
                        severity INTEGER DEFAULT 0,
                        status TEXT NOT NULL,
                        creation_date TEXT NOT NULL,
                        due_date TEXT,
                        reminder_date TEXT,
                        timer_start TEXT,
                        time_taken TEXT
                    );".to_owned()
}

fn events_table_query_exec() -> (r: String)
    ensures
        r@ == events_table_query(),
{
    "
                    CREATE TABLE events (
                        id INTEGER PRIMARY KEY NOT NULL,
                        title TEXT,
                        description TEXT,
                        duration TEXT,
                        date TEXT,
                        recurrence_interval TEXT,
                        recurrence_end TEXT,
                        skipped_dates TEXT
                    );".to_owned()
}

fn tags_table_query_exec() -> (r: String)
    ensures
        r@ == tags_table_query(),
{
    "
                    CREATE TABLE tags (
                        id INTEGER PRIMARY KEY NOT NULL,
                        text TEXT UNIQUE
                    );".to_owned()
}

fn task_tags_table_query_exec() -> (r: String)
    ensures
        r@ == task_tags_table_query(),
{
    "
                    CREATE TABLE task_tags (
                        task_id INTEGER,
                        tag_id INTEGER,
                        FOREIGN KEY (task_id) REFERENCES tasks(id) ON UPDATE CASCADE ON DELETE CASCADE,
                        FOREIGN KEY (tag_id) REFERENCES tags(id) ON UPDATE CASCADE ON DELETE CASCADE,
                        PRIMARY KEY (task_id, tag_id)
                    );".to_owned()
}

fn drop_task_view_query_exec() -> (r: String)
    ensures
        r@ == drop_task_view_query(),
{
    "
                        DROP VIEW IF EXISTS task_view;
                    ".to_owned()
}

fn task_view_query_exec() -> (r: String)
    ensures
        r@ == task_view_query(),
{
    "
                        CREATE VIEW task_view AS SELECT 
                            t.id,
                            t.title,
                            t.description,
                            t.severity,
                            t.status,
                            t.creation_date,
                            t.due_date,
                            t.reminder_date,
                            t.timer_start,
                            t.time_taken,
                            printf('%02d', (json_extract(t.time_taken, '$[0]')/(3600))) || ':' ||
                            printf('%02d', ((json_extract(t.time_taken, '$[0]')%3600) / 60)) || ':' ||
                            printf('%02d', json_extract(t.time_taken, '$[0]') % 60) AS time_taken_readable,
                            '[' || IFNULL(GROUP_CONCAT('\"' || tag.text || '\"', ','), '') || ']' AS tags,
                            '[' || IFNULL(GROUP_CONCAT(tag.id, ','), '') || ']' AS tag_ids
                        FROM 
                            tasks t
                        LEFT JOIN 
                            task_tags tt ON t.id = tt.task_id
                        LEFT JOIN 
                            tags tag ON tt.tag_id = tag.id
                        GROUP BY 
                            t.id;
                        ".to_owned()
}

fn contains_name(existing: &Vec<String>, name: &str) -> (r: bool)
    ensures
        r == existing@.map_values(|q: String| q@).contains(name@),
{
    let ghost names = existing@.map_values(|q: String| q@);
    let mut i: usize = 0;
    while i < existing.len()
        invariant
            i <= existing@.len(),
            names == existing@.map_values(|q: String| q@),
            forall|j: int| 0 <= j < i ==> names[j] != name@,
        decreases existing@.len() - i,
    {
        let w = crate::parser::chars_of(existing[i].as_str());
        if crate::text::eq_text(&w, name) {
            assert(names[i as int] == name@);
            return true;
        }
        i += 1;
    }
    false
}

/// The queries that create the tables (and the view) that are not among the tables the
/// database already has, in the order tasks, events, tags, task_tags, task_view; the view
/// is dropped before it is created.
pub fn table_creation_queries(existing: &Vec<String>) -> (r: Vec<String>)
    ensures
        r@.map_values(|q: String| q@) == creation_queries(existing@.map_values(|q: String| q@), 5),
{
    let ghost ex = existing@.map_values(|q: String| q@);
    let names: [&str; 5] = ["tasks", "events", "tags", "task_tags", "task_view"];
    assert(names@.map_values(|n: &str| n@) =~= needed_tables());
    let mut r: Vec<String> = Vec::new();
    let mut k: usize = 0;
    while k < 5
        invariant
            k <= 5,
            ex == existing@.map_values(|q: String| q@),
            names@.map_values(|n: &str| n@) == needed_tables(),
            r@.map_values(|q: String| q@) == creation_queries(ex, k as int),
        decreases 5 - k,
    {
        let name = names[k];
        assert(name@ == needed_tables()[k as int]) by {
            assert(names@.map_values(|n: &str| n@)[k as int] == names@[k as int]@);
        }
        if !contains_name(existing, name) {
            let mut qs = queries_of(name);
            let ghost before = r@;
            let ghost added = qs@;
            r.append(&mut qs);
            assert(r@.map_values(|q: String| q@) =~= before.map_values(|q: String| q@) + added.map_values(|q: String| q@));
        }
        k += 1;
    }
    r
}

/// Foreign keys are on: the setting reads 1; otherwise the error carries what it reads.
pub fn check_foreign_keys(value: u8) -> (r: Result<(), DataBaseError>)
    ensures
        value == 1 ==> r is Ok,
        value != 1 ==> (r matches Err(DataBaseError::ForeignKeyUpdateFailed(v)) && v == value),
{
    if value != 1 {
        return Err(DataBaseError::ForeignKeyUpdateFailed(value));
    }
    Ok(())
}

/// The id under which a task is stored; a task without one cannot be updated.
pub fn stored_task_id(task: &Task) -> (r: Result<i64, DataBaseError>)
    ensures
        match task.id {
            Some(id) => r == Ok::<i64, DataBaseError>(id),
            None => r matches Err(DataBaseError::TaskIdMissing(t)) && t@ == task.title@,
        },
{
    match task.get_id() {
        Some(id) => Ok(id),
        None => Err(DataBaseError::TaskIdMissing(task.title.clone())),
    }
}

/// The id under which a tag is stored; a tag without one cannot be updated.
pub fn stored_tag_id(tag: &Tag) -> (r: Result<i64, DataBaseError>)
    ensures
        match tag.id {
            Some(id) => r == Ok::<i64, DataBaseError>(id),
            None => r matches Err(DataBaseError::TagIdMissing(t)) && t@ == tag.text@,
        },
{
    match tag.get_id() {
        Some(id) => Ok(id),
        None => Err(DataBaseError::TagIdMissing(tag.text.clone())),
    }
}

/// The id under which an event is stored; an event without one cannot be updated.
pub fn stored_event_id(event: &Event) -> (r: Result<i64, DataBaseError>)
    ensures
        match event.id {
            Some(id) => r == Ok::<i64, DataBaseError>(id),
            None => r matches Err(DataBaseError::EventIdMissing(t)) && t@ == event.title@,
        },
{
    match event.get_id() {
        Some(id) => Ok(id),
        None => Err(DataBaseError::EventIdMissing(event.title.clone())),
    }
}

/// The ids of the tracked tasks as the query gives them; a row without id is an error.
pub fn tracked_ids(ids: Vec<Option<i64>>) -> (r: Result<Vec<i64>, DataBaseError>)
    ensures
        (forall|i: int| 0 <= i < ids@.len() ==> (#[trigger] ids@[i]) is Some) ==> (r matches Ok(v)
            && v@ == ids@.map_values(|o: Option<i64>| o->0)),
        (exists|i: int| 0 <= i < ids@.len() && (#[trigger] ids@[i]) is None) ==> (r matches Err(
            DataBaseError::TaskIdMissing(t),
        ) && t@ == "NO NAME"@),
{
    let mut out: Vec<i64> = Vec::new();
    let mut i: usize = 0;
    while i < ids.len()
        invariant
            i <= ids@.len(),
            forall|j: int| 0 <= j < i ==> (#[trigger] ids@[j]) is Some,
            out@ == ids@.take(i as int).map_values(|o: Option<i64>| o->0),
        decreases ids@.len() - i,
    {
        match ids[i] {
            Some(id) => {
                out.push(id);
            },
            None => {
                return Err(DataBaseError::TaskIdMissing("NO NAME".to_owned()));
            },
        }
        i += 1;
        assert(out@ =~= ids@.take(i as int).map_values(|o: Option<i64>| o->0));
    }
    assert(ids@.take(ids@.len() as int) =~= ids@);
    Ok(out)
}

// ------------------------------------------------------------------
// Filter queries
// ------------------------------------------------------------------

/// `n` question marks separated by commas.
pub open spec fn placeholders(n: nat) -> Seq<char>
    decreases n,
{
    if n == 0 {
        Seq::empty()
    } else if n == 1 {
        seq!['?']
    } else {
        placeholders((n - 1) as nat) + seq![',', '?']
    }
}

fn push_placeholders(s: &mut String, n: usize)
    ensures
        final(s)@ == old(s)@ + placeholders(n as nat),
{
    let mut i: usize = 0;
    assert(old(s)@ + placeholders(0) =~= old(s)@);
    while i < n
        invariant
            i <= n,
            s@ == old(s)@ + placeholders(i as nat),
        decreases n - i,
    {
        if i > 0 {
            push_char(s, ',');
        }
        push_char(s, '?');
        i += 1;
        assert(s@ =~= old(s)@ + placeholders(i as nat));
    }
}

pub open spec fn filtered_tasks_base() -> Seq<char> {
    "
            SELECT 
                id,
                title,
                description,
                severity,
                tag_ids,
                status,
                creation_date,
                due_date,
                reminder_date,
                timer_start,
                time_taken
            FROM task_view"@
}

/// The query for the tasks that carry every tag of a filter of `n` tags (none: all tasks)
/// and pass the custom filter, if there is one. The tag ids and then `n` are its parameters.
pub open spec fn filtered_tasks_query_text(n: nat, custom_filter: Option<Seq<char>>) -> Seq<char> {
    let base = filtered_tasks_base();
    let with_tags = if n > 0 {
        base + " WHERE id in (
                    SELECT task_id FROM task_tags
                        WHERE tag_id IN ("@ + placeholders(n) + ")
                        GROUP BY task_id
                        HAVING COUNT(DISTINCT tag_id) = ?)"@
    } else {
        base
    };
    match custom_filter {
        None => with_tags,
        Some(f) => if n > 0 {
            with_tags + " AND ("@ + f + ");"@
        } else {
            with_tags + " WHERE ("@ + f + ");"@
        },
    }
}

/// The text of the query for the tasks that pass the filters (see `filtered_tasks_query_text`).
pub fn filtered_tasks_query(filtered_tags_len: usize, custom_filter: Option<&str>) -> (r: String)
    ensures
        r@ == filtered_tasks_query_text(
            filtered_tags_len as nat,
            match custom_filter {
                Some(f) => Some(f@),
                None => None,
            },
        ),
{
    let mut q = String::new();
    push_str(
        &mut q,
        "
            SELECT 
                id,
                title,
                description,
                severity,
                tag_ids,
                status,
                creation_date,
                due_date,
                reminder_date,
                timer_start,
                time_taken
            FROM task_view",
    );
    proof {
        reveal_strlit("");
    }
    assert(q@ =~= filtered_tasks_base());
    if filtered_tags_len > 0 {
        push_str(&mut q, " WHERE id in (
                    SELECT task_id FROM task_tags
                        WHERE tag_id IN (");
        push_placeholders(&mut q, filtered_tags_len);
        push_str(&mut q, ")
                        GROUP BY task_id
                        HAVING COUNT(DISTINCT tag_id) = ?)");
    }
    match custom_filter {
        None => {},
        Some(f) => {
            if filtered_tags_len > 0 {
                push_str(&mut q, " AND (");
            } else {
                push_str(&mut q, " WHERE (");
            }
            push_str(&mut q, f);
            push_str(&mut q, ");");
        },
    }
    q
}

pub open spec fn tag_filter_query_text(n: nat) -> Seq<char> {
    "
                    SELECT EXISTS (
                        SELECT 1
                        FROM task_tags
                        WHERE task_id = ? 
                        AND tag_id IN ("@ + placeholders(n) + ")
                        GROUP BY task_id
                    HAVING COUNT(DISTINCT tag_id) = ?);"@
}

/// The text of the query whether a task carries every tag of a filter of `n` tags; its
/// parameters are the task id, the tag ids and `n`.
pub fn tag_filter_query(filtered_tags_len: usize) -> (r: String)
    ensures
        r@ == tag_filter_query_text(filtered_tags_len as nat),
{
    let mut q = String::new();
    proof {
        reveal_strlit("");
    }
    push_str(&mut q, "
                    SELECT EXISTS (
                        SELECT 1
                        FROM task_tags
                        WHERE task_id = ? 
                        AND tag_id IN (");
    push_placeholders(&mut q, filtered_tags_len);
    push_str(&mut q, ")
                        GROUP BY task_id
                    HAVING COUNT(DISTINCT tag_id) = ?);");
    q
}

pub open spec fn custom_filter_query_text(custom_filter: Seq<char>) -> Seq<char> {
    "
                SELECT EXISTS (
                    SELECT 1 FROM tasks WHERE id = :id 
                    AND ("@ + custom_filter + "));"@
}

/// The text of the query whether the task `:id` passes a custom filter.
pub fn custom_filter_query(custom_filter: &str) -> (r: String)
    ensures
        r@ == custom_filter_query_text(custom_filter@),
{
    let mut q = String::new();
    proof {
        reveal_strlit("");
    }
    push_str(&mut q, "
                SELECT EXISTS (
                    SELECT 1 FROM tasks WHERE id = :id 
                    AND (");
    push_str(&mut q, custom_filter);
    push_str(&mut q, "));");
    q
}

/// A filter without tags lets every task pass; with tags, storage has to be asked.
pub fn tag_filter_needs_query(filtered_tags: &Vec<i64>) -> (r: bool)
    ensures
        r == (filtered_tags@.len() > 0),
{
    filtered_tags.len() > 0
}

} // verus!
