//! Construction of new task records and the file-filter policy that
//! decides which files of a folder are task documents.

use crate::clock::{
    parts_in_range, spec_compact_stamp, spec_date_stamp, spec_datetime_stamp, compact_stamp,
    date_stamp, datetime_stamp, DateTimeParts,
};
use crate::codec::{SubTask, SubTaskV, Task, TaskV};
use crate::text::{chars_eq, chars_to_string, ends_with_chars, has_suffix, push_all, str_to_chars};
use vstd::prelude::*;

verus! {

/// The view of an optional string argument.
pub open spec fn opt_text(o: Option<String>) -> Option<Seq<char>> {
    match o {
        Some(s) => Some(s@),
        None => None,
    }
}

/// The view of an optional sub-task list argument.
pub open spec fn opt_subtasks(o: Option<Vec<SubTask>>) -> Option<Seq<SubTaskV>> {
    match o {
        Some(v) => Some(v@.map_values(|st: SubTask| st@)),
        None => None,
    }
}

pub open spec fn or_text(o: Option<Seq<char>>, default: Seq<char>) -> Seq<char> {
    match o {
        Some(s) => s,
        None => default,
    }
}

/// What explicit construction yields: every absent field filled with its
/// total default, the timestamps taken from one clock reading.
pub open spec fn spec_new_task(
    file_path: Seq<char>,
    title: Seq<char>,
    status: Option<Seq<char>>,
    priority: Option<Seq<char>>,
    due: Option<Seq<char>>,
    assignee: Option<Seq<char>>,
    sub_tasks: Option<Seq<SubTaskV>>,
    memo: Option<Seq<char>>,
    now: DateTimeParts,
) -> TaskV {
    TaskV {
        file_path,
        title: if title.len() == 0 {
            "-"@
        } else {
            title
        },
        created: spec_datetime_stamp(now),
        updated: spec_datetime_stamp(now),
        status: or_text(status, "not started"@),
        priority: or_text(priority, "low"@),
        due: or_text(due, spec_date_stamp(now)),
        assignee: or_text(assignee, "-"@),
        sub_tasks: match sub_tasks {
            Some(s) => s,
            None => Seq::empty(),
        },
        memo: or_text(memo, Seq::empty()),
    }
}

/// Builds a new task record from caller-supplied fields, as
/// [`spec_new_task`] describes.  `created` is set here, once, and never
/// changed by any other part of the library.
pub fn new_task(
    file_path: String,
    title: String,
    status: Option<String>,
    priority: Option<String>,
    due: Option<String>,
    assignee: Option<String>,
    sub_tasks: Option<Vec<SubTask>>,
    memo: Option<String>,
    now: &DateTimeParts,
) -> (t: Task)
    requires
        parts_in_range(*now),
    ensures
        t@ == spec_new_task(
            file_path@,
            title@,
            opt_text(status),
            opt_text(priority),
            opt_text(due),
            opt_text(assignee),
            opt_subtasks(sub_tasks),
            opt_text(memo),
            *now,
        ),
{
    let ghost g_status = opt_text(status);
    let ghost g_priority = opt_text(priority);
    let ghost g_due = opt_text(due);
    let ghost g_assignee = opt_text(assignee);
    let ghost g_subs = opt_subtasks(sub_tasks);
    let ghost g_memo = opt_text(memo);
    let ghost g_title = title@;
    let stamp = datetime_stamp(now);
    let updated = stamp.clone();
    let title_or_dash = if title.as_str().unicode_len() == 0 {
        "-".to_owned()
    } else {
        title
    };
    let t = Task {
        file_path,
        title: title_or_dash,
        created: stamp,
        updated,
        status: match status {
            Some(s) => s,
            None => "not started".to_owned(),
        },
        priority: match priority {
            Some(s) => s,
            None => "low".to_owned(),
        },
        due: match due {
            Some(s) => s,
            None => date_stamp(now),
        },
        assignee: match assignee {
            Some(s) => s,
            None => "-".to_owned(),
        },
        sub_tasks: match sub_tasks {
            Some(v) => v,
            None => Vec::new(),
        },
        memo: match memo {
            Some(s) => s,
            None => String::new(),
        },
    };
    proof {
        assert(t@.sub_tasks =~= spec_new_task(
            t@.file_path,
            g_title,
            g_status,
            g_priority,
            g_due,
            g_assignee,
            g_subs,
            g_memo,
            *now,
        ).sub_tasks);
    }
    t
}

/// The name sanitizer for generated files: alphanumeric characters and the
/// dash and underscore are kept, everything else becomes an underscore.
pub open spec fn sanitize_char(c: char) -> char {
    if alnum(c) || c == '-' || c == '_' {
        c
    } else {
        '_'
    }
}

pub open spec fn sanitize(s: Seq<char>) -> Seq<char> {
    s.map_values(|c: char| sanitize_char(c))
}

/// What `char::is_alphanumeric` returns: a fixed class of characters.
pub uninterp spec fn alnum(c: char) -> bool;

/// Relies on `char::is_alphanumeric`: the result depends on the character
/// alone; ASCII letters and digits are alphanumeric, and the ASCII space,
/// underscore, dash and dot are not.
#[verifier::external_body]
fn char_is_alphanumeric(c: char) -> (r: bool)
    ensures
        r == alnum(c),
        ('a' <= c && c <= 'z') || ('A' <= c && c <= 'Z') || ('0' <= c && c <= '9') ==> r,
        c == ' ' || c == '_' || c == '-' || c == '.' ==> !r,
{
    c.is_alphanumeric()
}

/// The generated file name for a new task: the sanitized title, an
/// underscore, the compact timestamp and the `.md` suffix.
#[verifier::loop_isolation(false)]
pub fn task_file_name(title: &str, now: &DateTimeParts) -> (r: String)
    requires
        parts_in_range(*now),
    ensures
        r@ == sanitize(title@) + "_"@ + spec_compact_stamp(*now) + ".md"@,
{
    let tc = str_to_chars(title);
    let mut v: Vec<char> = Vec::new();
    let mut i: usize = 0;
    while i < tc.len()
        invariant
            0 <= i <= tc.len(),
            tc@ == title@,
            v@ == sanitize(title@).take(i as int),
        decreases tc.len() - i,
    {
        let c = tc[i];
        let kept = if char_is_alphanumeric(c) || c == '-' || c == '_' {
            c
        } else {
            '_'
        };
        v.push(kept);
        proof {
            assert(v@ =~= sanitize(title@).take(i + 1));
        }
        i = i + 1;
    }
    proof {
        assert(sanitize(title@).take(title@.len() as int) =~= sanitize(title@));
    }
    let us = str_to_chars("_");
    push_all(&mut v, &us);
    let stamp = compact_stamp(now);
    let sc = str_to_chars(stamp.as_str());
    push_all(&mut v, &sc);
    let suffix = str_to_chars(".md");
    push_all(&mut v, &suffix);
    proof {
        assert(v@ =~= sanitize(title@) + "_"@ + spec_compact_stamp(*now) + ".md"@);
    }
    chars_to_string(&v)
}

/// The file-filter policy for batch loading: a task document is any file
/// whose name ends in `.md` and is not one of the reserved provisioning
/// names.
#[verifier::loop_isolation(false)]
pub fn is_task_file(name: &str, reserved: &Vec<String>) -> (r: bool)
    ensures
        r == (has_suffix(name@, ".md"@) && !reserved@.map_values(|s: String| s@).contains(name@)),
{
    let nc = str_to_chars(name);
    let suffix = str_to_chars(".md");
    if !ends_with_chars(&nc, &suffix) {
        return false;
    }
    let ghost rv = reserved@.map_values(|s: String| s@);
    let mut i: usize = 0;
    while i < reserved.len()
        invariant
            0 <= i <= reserved.len(),
            nc@ == name@,
            rv == reserved@.map_values(|s: String| s@),
            forall|j: int| 0 <= j < i ==> rv[j] != name@,
        decreases reserved.len() - i,
    {
        let rc = str_to_chars(reserved[i].as_str());
        if chars_eq(&nc, &rc) {
            proof {
                assert(rv[i as int] == name@);
                assert(rv.contains(name@));
            }
            return false;
        }
        i = i + 1;
    }
    proof {
        assert(!rv.contains(name@));
    }
    true
}

/// The two reserved provisioning names: the template and the naming guide.
pub fn default_reserved() -> (v: Vec<String>)
    ensures
        v@.map_values(|s: String| s@) == seq!["template.md"@, "task-naming.md"@],
{
    let mut v: Vec<String> = Vec::new();
    v.push("template.md".to_owned());
    v.push("task-naming.md".to_owned());
    proof {
        assert(v@.map_values(|s: String| s@) =~= seq!["template.md"@, "task-naming.md"@]);
    }
    v
}

} // verus!
