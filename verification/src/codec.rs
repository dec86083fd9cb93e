//! The task document codec: a fixed, human-editable markdown schema is
//! decoded into a [`Task`] record and a record is encoded back into its
//! canonical document text.
//!
//! Decoding is total: a malformed document degrades to field defaults and
//! never fails.  Encoding always produces the same fixed layout for a given
//! record.

use crate::text::{
    chars_to_string, contains_chars, contains_seq, find_char, find_first, first_containing,
    has_prefix, is_ws, is_ws_char, join_lines, join_lines_chars, keep_nonblank,
    lemma_first_containing_at, lemma_skip_step, lemma_skip_ws_at, lines_spec, matches_at,
    push_all, skip_ws_from, split_lines, starts_with_chars, str_to_chars,
    sub_chars, trim_chars, trim_spec, unlines, unlines_chars,
};
use vstd::prelude::*;

verus! {

/// One checkbox entry of the sub-tasks section.  Document order is kept.
#[derive(Debug, Clone)]
pub struct SubTask {
    pub text: String,
    pub completed: bool,
}

/// The mathematical value of a [`SubTask`].
#[verifier::ext_equal]
pub ghost struct SubTaskV {
    pub text: Seq<char>,
    pub completed: bool,
}

impl View for SubTask {
    type V = SubTaskV;

    open spec fn view(&self) -> SubTaskV {
        SubTaskV { text: self.text@, completed: self.completed }
    }
}

/// One task record.  `file_path` is the opaque identity tying the record to
/// its backing file; every other field has a total default, so decoding
/// never fails for want of one.
#[derive(Debug, Clone)]
pub struct Task {
    pub file_path: String,
    pub title: String,
    pub created: String,
    pub updated: String,
    pub status: String,
    pub priority: String,
    pub due: String,
    pub assignee: String,
    pub sub_tasks: Vec<SubTask>,
    pub memo: String,
}

/// The mathematical value of a [`Task`].
#[verifier::ext_equal]
pub ghost struct TaskV {
    pub file_path: Seq<char>,
    pub title: Seq<char>,
    pub created: Seq<char>,
    pub updated: Seq<char>,
    pub status: Seq<char>,
    pub priority: Seq<char>,
    pub due: Seq<char>,
    pub assignee: Seq<char>,
    pub sub_tasks: Seq<SubTaskV>,
    pub memo: Seq<char>,
}

impl View for Task {
    type V = TaskV;

    open spec fn view(&self) -> TaskV {
        TaskV {
            file_path: self.file_path@,
            title: self.title@,
            created: self.created@,
            updated: self.updated@,
            status: self.status@,
            priority: self.priority@,
            due: self.due@,
            assignee: self.assignee@,
            sub_tasks: self.sub_tasks@.map_values(|st: SubTask| st@),
            memo: self.memo@,
        }
    }
}

/// The views of a vector of lines.
pub open spec fn line_views(lines: Seq<Vec<char>>) -> Seq<Seq<char>> {
    lines.map_values(|l: Vec<char>| l@)
}

// ---------------------------------------------------------------------------
// Decoding: specification
// ---------------------------------------------------------------------------

/// The title of a document: the text after the level-1 heading marker on the
/// first line that begins with one, or `"-"` if no line does.
pub open spec fn spec_title(lines: Seq<Seq<char>>) -> Seq<char>
    decreases lines.len(),
{
    if lines.len() == 0 {
        "-"@
    } else if has_prefix(lines[0], "# "@) {
        lines[0].skip(2)
    } else {
        spec_title(lines.drop_first())
    }
}

/// A metadata value cleaned up: trimmed, any annotation starting at a
/// full-width open parenthesis removed, and trimmed again.
pub open spec fn clean_value(s: Seq<char>) -> Seq<char> {
    trim_spec(trim_spec(s).take(find_first(trim_spec(s), '\u{ff08}')))
}

/// The value a line contributes for a metadata key: the line must be a
/// bullet `- <key>: <value>` with optional whitespace after the dash and a
/// nonempty remainder after the colon; the remainder is cleaned up by
/// [`clean_value`].
pub open spec fn bullet_value(line: Seq<char>, key: Seq<char>) -> Option<Seq<char>> {
    if line.len() == 0 || line[0] != '-' {
        None
    } else {
        let i = skip_ws_from(line, 1);
        if i + key.len() + 1 < line.len() && line.subrange(i, i + key.len()) == key && line[i
            + key.len()] == ':' {
            Some(clean_value(line.skip(i + key.len() + 1)))
        } else {
            None
        }
    }
}

/// The first bullet match for a key over the document's lines.
pub open spec fn find_bullet(lines: Seq<Seq<char>>, key: Seq<char>) -> Option<Seq<char>>
    decreases lines.len(),
{
    if lines.len() == 0 {
        None
    } else if bullet_value(lines[0], key) is Some {
        bullet_value(lines[0], key)
    } else {
        find_bullet(lines.drop_first(), key)
    }
}

/// A metadata field: the first bullet match, or the field's default.
pub open spec fn meta_or(lines: Seq<Seq<char>>, key: Seq<char>, default: Seq<char>) -> Seq<char> {
    match find_bullet(lines, key) {
        Some(v) => v,
        None => default,
    }
}

/// The least index at or after `i` of a line that starts a level-2 section,
/// or `lines.len()` if none follows.
pub open spec fn first_heading_from(lines: Seq<Seq<char>>, i: int) -> int
    decreases lines.len() - i,
{
    if i < 0 || i >= lines.len() {
        lines.len() as int
    } else if has_prefix(lines[i], "## "@) {
        i
    } else {
        first_heading_from(lines, i + 1)
    }
}

pub proof fn lemma_first_heading_at(lines: Seq<Seq<char>>, start: int, i: int)
    requires
        0 <= start <= i <= lines.len(),
        forall|j: int| start <= j < i ==> !has_prefix(lines[j], "## "@),
        i == lines.len() || has_prefix(lines[i], "## "@),
    ensures
        first_heading_from(lines, start) == i,
    decreases i - start,
{
    if start < i {
        lemma_first_heading_at(lines, start + 1, i);
    }
}

/// What a line contributes to the sub-task list: a checkbox bullet
/// `- [c] <text>` with `c` a space, `x` or `X`; the text is trimmed and the
/// entry is completed when the bracket holds a non-space character.
pub open spec fn checkbox_item(line: Seq<char>) -> Option<SubTaskV> {
    if line.len() == 0 || line[0] != '-' {
        None
    } else {
        let i = skip_ws_from(line, 1);
        if i + 3 < line.len() && line[i] == '[' && (line[i + 1] == ' ' || line[i + 1] == 'x'
            || line[i + 1] == 'X') && line[i + 2] == ']' {
            Some(SubTaskV { text: trim_spec(line.skip(i + 3)), completed: line[i + 1] != ' ' })
        } else {
            None
        }
    }
}

/// The sub-tasks contributed by `lines[i..end]`: checkbox bullets whose
/// text is neither empty nor the `"-"` placeholder.
pub open spec fn collect_subtasks(lines: Seq<Seq<char>>, i: int, end: int) -> Seq<SubTaskV>
    decreases end - i,
{
    if i < 0 || i >= end {
        Seq::empty()
    } else {
        let rest = collect_subtasks(lines, i + 1, end);
        match checkbox_item(lines[i]) {
            Some(st) => if st.text.len() != 0 && st.text != "-"@ {
                seq![st] + rest
            } else {
                rest
            },
            None => rest,
        }
    }
}

/// The sub-task list of a document: the checkbox bullets between the first
/// line containing the sub-tasks marker and the next level-2 heading (or the
/// end of the document).
pub open spec fn spec_subtasks(lines: Seq<Seq<char>>) -> Seq<SubTaskV> {
    let m = first_containing(lines, "## Sub-tasks"@);
    if m == lines.len() {
        Seq::empty()
    } else {
        collect_subtasks(lines, m + 1, first_heading_from(lines, m + 1))
    }
}

/// The memo of a document: the non-blank lines between the first line
/// containing the memo marker and the next level-2 heading (or the end of
/// the document), joined by newlines.
pub open spec fn spec_memo(lines: Seq<Seq<char>>) -> Seq<char> {
    let m = first_containing(lines, "## Memo"@);
    if m == lines.len() {
        Seq::empty()
    } else {
        join_lines(keep_nonblank(lines.subrange(m + 1, first_heading_from(lines, m + 1))))
    }
}

/// What decoding a document yields, field by field.
pub open spec fn spec_decode(text: Seq<char>, location: Seq<char>) -> TaskV {
    let lines = lines_spec(text);
    TaskV {
        file_path: location,
        title: spec_title(lines),
        created: meta_or(lines, "created"@, "-"@),
        updated: meta_or(lines, "updated"@, "-"@),
        status: meta_or(lines, "status"@, "not started"@),
        priority: meta_or(lines, "priority"@, "low"@),
        due: meta_or(lines, "due"@, "-"@),
        assignee: meta_or(lines, "assignee"@, "-"@),
        sub_tasks: spec_subtasks(lines),
        memo: spec_memo(lines),
    }
}

// ---------------------------------------------------------------------------
// Decoding: executable scanner
// ---------------------------------------------------------------------------

/// Splits a document into the lines every decoding pass walks.
pub fn document_lines(content: &str) -> (r: Vec<Vec<char>>)
    ensures
        line_views(r@) == lines_spec(content@),
{
    let cs = str_to_chars(content);
    split_lines(&cs)
}

/// The title line scan, as [`spec_title`] describes.
#[verifier::loop_isolation(false)]
pub fn find_title(lines: &Vec<Vec<char>>) -> (r: Vec<char>)
    ensures
        r@ == spec_title(line_views(lines@)),
{
    let ghost lv = line_views(lines@);
    let marker = str_to_chars("# ");
    let mut i: usize = 0;
    proof {
        assert(lv.skip(0) =~= lv);
    }
    while i < lines.len()
        invariant
            0 <= i <= lines.len(),
            lv == line_views(lines@),
            marker@ == "# "@,
            spec_title(lv) == spec_title(lv.skip(i as int)),
        decreases lines.len() - i,
    {
        proof {
            lemma_skip_step(lv, i as int);
        }
        if starts_with_chars(&lines[i], &marker) {
            proof {
                reveal_strlit("# ");
            }
            let r = sub_chars(&lines[i], 2, lines[i].len());
            proof {
                assert(r@ =~= lv[i as int].skip(2));
            }
            return r;
        }
        i = i + 1;
    }
    proof {
        assert(lv.skip(lv.len() as int) =~= Seq::<Seq<char>>::empty());
    }
    str_to_chars("-")
}

/// Cleans a raw metadata value, as [`clean_value`] describes.
pub fn clean_value_chars(raw: &Vec<char>) -> (r: Vec<char>)
    ensures
        r@ == clean_value(raw@),
{
    let t1 = trim_chars(raw);
    let cut = find_char(&t1, '\u{ff08}');
    let t2 = sub_chars(&t1, 0, cut);
    proof {
        assert(t2@ =~= trim_spec(raw@).take(find_first(trim_spec(raw@), '\u{ff08}')));
    }
    trim_chars(&t2)
}

/// One line matched against a metadata key, as [`bullet_value`] describes.
#[verifier::loop_isolation(false)]
pub fn bullet_value_of(line: &Vec<char>, key: &Vec<char>) -> (r: Option<Vec<char>>)
    ensures
        r is Some <==> bullet_value(line@, key@) is Some,
        r matches Some(v) ==> bullet_value(line@, key@) == Some(v@),
{
    if line.len() == 0 || line[0] != '-' {
        return None;
    }
    let mut i: usize = 1;
    while i < line.len() && is_ws_char(line[i])
        invariant
            1 <= i <= line.len(),
            forall|j: int| 1 <= j < i ==> is_ws(line@[j]),
        decreases line.len() - i,
    {
        i = i + 1;
    }
    proof {
        lemma_skip_ws_at(line@, 1, i as int);
    }
    let rem = line.len() - i;
    if key.len() > rem || rem - key.len() < 2 {
        return None;
    }
    if !matches_at(line, key, i) {
        return None;
    }
    if line[i + key.len()] != ':' {
        return None;
    }
    let raw = sub_chars(line, i + key.len() + 1, line.len());
    proof {
        assert(raw@ =~= line@.skip(i + key@.len() + 1));
    }
    Some(clean_value_chars(&raw))
}

/// Scans the document's lines for the first bullet carrying `key` and
/// hands back its cleaned value, as [`find_bullet`] describes.
#[verifier::loop_isolation(false)]
pub fn extract_metadata(lines: &Vec<Vec<char>>, key: &str) -> (r: Option<String>)
    ensures
        r is Some <==> find_bullet(line_views(lines@), key@) is Some,
        r matches Some(s) ==> find_bullet(line_views(lines@), key@) == Some(s@),
{
    let ghost lv = line_views(lines@);
    let kc = str_to_chars(key);
    let mut i: usize = 0;
    proof {
        assert(lv.skip(0) =~= lv);
    }
    while i < lines.len()
        invariant
            0 <= i <= lines.len(),
            lv == line_views(lines@),
            kc@ == key@,
            find_bullet(lv, key@) == find_bullet(lv.skip(i as int), key@),
        decreases lines.len() - i,
    {
        proof {
            lemma_skip_step(lv, i as int);
        }
        match bullet_value_of(&lines[i], &kc) {
            Some(v) => {
                return Some(chars_to_string(&v));
            },
            None => {},
        }
        i = i + 1;
    }
    proof {
        assert(lv.skip(lv.len() as int) =~= Seq::<Seq<char>>::empty());
    }
    None
}

/// One line matched as a checkbox bullet, as [`checkbox_item`] describes.
#[verifier::loop_isolation(false)]
pub fn checkbox_item_of(line: &Vec<char>) -> (r: Option<SubTask>)
    ensures
        r is Some <==> checkbox_item(line@) is Some,
        r matches Some(st) ==> checkbox_item(line@) == Some(st@),
{
    if line.len() == 0 || line[0] != '-' {
        return None;
    }
    let mut i: usize = 1;
    while i < line.len() && is_ws_char(line[i])
        invariant
            1 <= i <= line.len(),
            forall|j: int| 1 <= j < i ==> is_ws(line@[j]),
        decreases line.len() - i,
    {
        i = i + 1;
    }
    proof {
        lemma_skip_ws_at(line@, 1, i as int);
    }
    let rem = line.len() - i;
    if rem < 4 {
        return None;
    }
    if line[i] != '[' || line[i + 2] != ']' {
        return None;
    }
    let c = line[i + 1];
    if !(c == ' ' || c == 'x' || c == 'X') {
        return None;
    }
    let raw = sub_chars(line, i + 3, line.len());
    proof {
        assert(raw@ =~= line@.skip(i + 3));
    }
    let text = trim_chars(&raw);
    Some(SubTask { text: chars_to_string(&text), completed: c != ' ' })
}

/// Finds the first line containing `marker`, as [`first_containing`]
/// describes; `lines.len()` means no line contains it.
#[verifier::loop_isolation(false)]
pub fn find_section(lines: &Vec<Vec<char>>, marker: &Vec<char>) -> (r: usize)
    ensures
        r == first_containing(line_views(lines@), marker@),
        r <= lines@.len(),
{
    let ghost lv = line_views(lines@);
    let mut i: usize = 0;
    while i < lines.len()
        invariant
            0 <= i <= lines.len(),
            lv == line_views(lines@),
            forall|j: int| 0 <= j < i ==> !contains_seq(lv[j], marker@),
        decreases lines.len() - i,
    {
        if contains_chars(&lines[i], marker) {
            proof {
                lemma_first_containing_at(lv, marker@, i as int);
            }
            return i;
        }
        i = i + 1;
    }
    proof {
        lemma_first_containing_at(lv, marker@, lv.len() as int);
    }
    lines.len()
}

/// Finds the end of the section that starts after line `start`: the next
/// level-2 heading, or the end of the document.
#[verifier::loop_isolation(false)]
pub fn find_section_end(lines: &Vec<Vec<char>>, start: usize) -> (r: usize)
    requires
        start <= lines@.len(),
    ensures
        r == first_heading_from(line_views(lines@), start as int),
        start <= r <= lines@.len(),
{
    let ghost lv = line_views(lines@);
    let heading = str_to_chars("## ");
    let mut i: usize = start;
    while i < lines.len()
        invariant
            start <= i <= lines.len(),
            lv == line_views(lines@),
            heading@ == "## "@,
            forall|j: int| start <= j < i ==> !has_prefix(lv[j], "## "@),
        decreases lines.len() - i,
    {
        if starts_with_chars(&lines[i], &heading) {
            proof {
                lemma_first_heading_at(lv, start as int, i as int);
            }
            return i;
        }
        i = i + 1;
    }
    proof {
        lemma_first_heading_at(lv, start as int, lv.len() as int);
    }
    lines.len()
}

/// The sub-tasks scan, as [`spec_subtasks`] describes.
#[verifier::loop_isolation(false)]
pub fn parse_subtasks(lines: &Vec<Vec<char>>) -> (r: Vec<SubTask>)
    ensures
        r@.map_values(|st: SubTask| st@) == spec_subtasks(line_views(lines@)),
{
    let ghost lv = line_views(lines@);
    let marker = str_to_chars("## Sub-tasks");
    let mut r: Vec<SubTask> = Vec::new();
    let m = find_section(lines, &marker);
    if m == lines.len() {
        proof {
            assert(r@.map_values(|st: SubTask| st@) =~= spec_subtasks(lv));
        }
        return r;
    }
    let end = find_section_end(lines, m + 1);
    let ghost endg = end as int;
    let mut i: usize = m + 1;
    while i < end
        invariant
            m + 1 <= i <= endg,
            endg == first_heading_from(lv, m + 1),
            endg <= lv.len(),
            lv == line_views(lines@),
            m < lv.len(),
            m == first_containing(lv, "## Sub-tasks"@),
            spec_subtasks(lv) == r@.map_values(|st: SubTask| st@) + collect_subtasks(
                lv,
                i as int,
                endg,
            ),
        decreases end - i,
    {
        match checkbox_item_of(&lines[i]) {
            Some(st) => {
                let keep = st.text.unicode_len() > 0 && !is_dash(&st.text);
                if keep {
                    let ghost r0 = r@.map_values(|stv: SubTask| stv@);
                    let ghost stg = st@;
                    r.push(st);
                    proof {
                        assert(r@.map_values(|stv: SubTask| stv@) =~= r0.push(stg));
                        assert(r0.push(stg) + collect_subtasks(lv, i + 1, endg) =~= r0 + (seq![stg]
                            + collect_subtasks(lv, i + 1, endg)));
                    }
                }
            },
            None => {},
        }
        i = i + 1;
    }
    proof {
        assert(collect_subtasks(lv, endg, endg) =~= Seq::<SubTaskV>::empty());
        assert(r@.map_values(|st: SubTask| st@) + Seq::<SubTaskV>::empty() =~= r@.map_values(
            |st: SubTask| st@,
        ));
    }
    r
}

/// Whether a string is exactly the placeholder `"-"`.
pub fn is_dash(s: &String) -> (r: bool)
    ensures
        r == (s@ == "-"@),
{
    let n = s.as_str().unicode_len();
    proof {
        reveal_strlit("-");
    }
    if n != 1 {
        proof {
            assert(s@ != "-"@);
        }
        return false;
    }
    let c = s.as_str().get_char(0);
    if c == '-' {
        proof {
            assert(s@ =~= "-"@);
        }
        true
    } else {
        false
    }
}

/// The memo scan, as [`spec_memo`] describes.
#[verifier::loop_isolation(false)]
pub fn parse_memo(lines: &Vec<Vec<char>>) -> (r: String)
    ensures
        r@ == spec_memo(line_views(lines@)),
{
    let ghost lv = line_views(lines@);
    let marker = str_to_chars("## Memo");
    let m = find_section(lines, &marker);
    if m == lines.len() {
        return String::new();
    }
    let end = find_section_end(lines, m + 1);
    let ghost endg = end as int;
    let ghost span = lv.subrange(m + 1, endg);
    let mut kept: Vec<Vec<char>> = Vec::new();
    let mut i: usize = m + 1;
    proof {
        assert(span.skip(0) =~= lv.subrange(m + 1, endg));
        assert(line_views(kept@) + keep_nonblank(span) =~= keep_nonblank(span));
    }
    while i < end
        invariant
            m + 1 <= i <= endg,
            endg == first_heading_from(lv, m + 1),
            endg <= lv.len(),
            lv == line_views(lines@),
            m < lv.len(),
            m == first_containing(lv, "## Memo"@),
            span == lv.subrange(m + 1, endg),
            keep_nonblank(span) == line_views(kept@) + keep_nonblank(
                span.skip(i - (m + 1)),
            ),
        decreases end - i,
    {
        proof {
            lemma_skip_step(span, i - (m + 1));
            assert(span.skip(i - (m + 1))[0] == lv[i as int]);
        }
        let t = trim_chars(&lines[i]);
        if t.len() > 0 {
            let ghost k0 = line_views(kept@);
            let copy = sub_chars(&lines[i], 0, lines[i].len());
            proof {
                assert(copy@ =~= lv[i as int]);
            }
            kept.push(copy);
            proof {
                assert(line_views(kept@) =~= k0.push(lv[i as int]));
                assert(k0.push(lv[i as int]) + keep_nonblank(span.skip(i - (m + 1) + 1)) =~= k0
                    + (seq![lv[i as int]] + keep_nonblank(span.skip(i - (m + 1) + 1))));
            }
        }
        i = i + 1;
    }
    proof {
        assert(span.skip(endg - (m + 1)) =~= Seq::<Seq<char>>::empty());
        assert(line_views(kept@) + keep_nonblank(Seq::<Seq<char>>::empty()) =~= line_views(kept@));
    }
    let joined = join_lines_chars(&kept);
    chars_to_string(&joined)
}

/// Decodes a task document.  Decoding is total: every field degrades to its
/// default, so the result is always `Ok`; the `Result` shape is kept for the
/// callers that treat unreadable files separately from malformed ones.
pub fn parse_markdown(content: &str, file_path: &str) -> (r: Result<Task, String>)
    ensures
        r is Ok,
        r matches Ok(t) ==> t@ == spec_decode(content@, file_path@),
{
    let lines = document_lines(content);
    let title = find_title(&lines);
    let created = meta_field(&lines, "created", "-");
    let updated = meta_field(&lines, "updated", "-");
    let status = meta_field(&lines, "status", "not started");
    let priority = meta_field(&lines, "priority", "low");
    let due = meta_field(&lines, "due", "-");
    let assignee = meta_field(&lines, "assignee", "-");
    let sub_tasks = parse_subtasks(&lines);
    let memo = parse_memo(&lines);
    Ok(
        Task {
            file_path: file_path.to_owned(),
            title: chars_to_string(&title),
            created,
            updated,
            status,
            priority,
            due,
            assignee,
            sub_tasks,
            memo,
        },
    )
}

/// One metadata field with its default, as [`meta_or`] describes.
pub fn meta_field(lines: &Vec<Vec<char>>, key: &str, default: &str) -> (r: String)
    ensures
        r@ == meta_or(line_views(lines@), key@, default@),
{
    match extract_metadata(lines, key) {
        Some(v) => v,
        None => default.to_owned(),
    }
}

// ---------------------------------------------------------------------------
// Encoding
// ---------------------------------------------------------------------------

/// How one sub-task renders.
pub open spec fn st_line(st: SubTaskV) -> Seq<char> {
    "- "@ + (if st.completed {
        "[x]"@
    } else {
        "[ ]"@
    }) + " "@ + st.text
}

/// The lines of the sub-tasks section: one per entry, or the placeholder.
pub open spec fn st_lines(sts: Seq<SubTaskV>) -> Seq<Seq<char>> {
    if sts.len() == 0 {
        seq!["- [ ] -"@]
    } else {
        sts.map_values(|st: SubTaskV| st_line(st))
    }
}

/// How one metadata bullet renders.
pub open spec fn meta_bullet(key: Seq<char>, v: Seq<char>) -> Seq<char> {
    "- "@ + key + ": "@ + v
}

/// Every line of the canonical document before the memo text.
pub open spec fn pre_memo_lines(t: TaskV) -> Seq<Seq<char>> {
    seq![
        "# "@ + t.title,
        Seq::<char>::empty(),
        "## Metadata"@,
        Seq::<char>::empty(),
        meta_bullet("created"@, t.created),
        meta_bullet("updated"@, t.updated),
        meta_bullet("status"@, t.status),
        meta_bullet("priority"@, t.priority),
        meta_bullet("due"@, t.due),
        meta_bullet("assignee"@, t.assignee),
        Seq::<char>::empty(),
        "## Sub-tasks"@,
        Seq::<char>::empty(),
    ] + st_lines(t.sub_tasks) + seq![Seq::<char>::empty(), "## Memo"@, Seq::<char>::empty()]
}

/// The memo section's body: the memo itself, or the placeholder.
pub open spec fn memo_chunk(m: Seq<char>) -> Seq<char> {
    if m.len() == 0 {
        "-"@
    } else {
        m
    }
}

/// The canonical document of a record: the fixed template, every line
/// followed by a newline, the memo written as one block.
pub open spec fn spec_encode(t: TaskV) -> Seq<char> {
    unlines(pre_memo_lines(t)) + memo_chunk(t.memo) + seq!['\n']
}

/// One rendered metadata bullet.
fn meta_bullet_line(key: &str, v: &str) -> (r: Vec<char>)
    ensures
        r@ == meta_bullet(key@, v@),
{
    let mut b = str_to_chars("- ");
    let kc = str_to_chars(key);
    push_all(&mut b, &kc);
    let sep = str_to_chars(": ");
    push_all(&mut b, &sep);
    let vc = str_to_chars(v);
    push_all(&mut b, &vc);
    proof {
        assert(b@ =~= meta_bullet(key@, v@));
    }
    b
}

/// One rendered sub-task line.
fn st_line_chars(st: &SubTask) -> (r: Vec<char>)
    ensures
        r@ == st_line(st@),
{
    let mut b = str_to_chars("- ");
    let box_part = if st.completed {
        str_to_chars("[x]")
    } else {
        str_to_chars("[ ]")
    };
    push_all(&mut b, &box_part);
    b.push(' ');
    let tc = str_to_chars(st.text.as_str());
    push_all(&mut b, &tc);
    proof {
        reveal_strlit(" ");
        assert(" "@ =~= seq![' ']);
        assert(b@ =~= st_line(st@));
    }
    b
}

/// Encodes a record into its canonical document, as [`spec_encode`]
/// describes.  Encoding is total and deterministic.
#[verifier::loop_isolation(false)]
pub fn task_to_markdown(task: &Task) -> (r: String)
    ensures
        r@ == spec_encode(task@),
{
    let mut ls: Vec<Vec<char>> = Vec::new();
    let mut title_line = str_to_chars("# ");
    let tc = str_to_chars(task.title.as_str());
    push_all(&mut title_line, &tc);
    ls.push(title_line);
    ls.push(Vec::new());
    ls.push(str_to_chars("## Metadata"));
    ls.push(Vec::new());
    ls.push(meta_bullet_line("created", task.created.as_str()));
    ls.push(meta_bullet_line("updated", task.updated.as_str()));
    ls.push(meta_bullet_line("status", task.status.as_str()));
    ls.push(meta_bullet_line("priority", task.priority.as_str()));
    ls.push(meta_bullet_line("due", task.due.as_str()));
    ls.push(meta_bullet_line("assignee", task.assignee.as_str()));
    ls.push(Vec::new());
    ls.push(str_to_chars("## Sub-tasks"));
    ls.push(Vec::new());
    let ghost stv = task.sub_tasks@.map_values(|st: SubTask| st@);
    let ghost head = line_views(ls@);
    if task.sub_tasks.len() == 0 {
        ls.push(str_to_chars("- [ ] -"));
        proof {
            assert(line_views(ls@) =~= head + st_lines(stv));
        }
    } else {
        let mut i: usize = 0;
        proof {
            assert(stv.map_values(|st: SubTaskV| st_line(st)).take(0)
                =~= Seq::<Seq<char>>::empty());
            assert(head + Seq::<Seq<char>>::empty() =~= head);
        }
        while i < task.sub_tasks.len()
            invariant
                0 <= i <= task.sub_tasks.len(),
                stv == task.sub_tasks@.map_values(|st: SubTask| st@),
                line_views(ls@) == head + stv.map_values(|st: SubTaskV| st_line(st)).take(i as int),
            decreases task.sub_tasks.len() - i,
        {
            let ghost l0 = line_views(ls@);
            let line = st_line_chars(&task.sub_tasks[i]);
            ls.push(line);
            proof {
                assert(line_views(ls@) =~= l0.push(st_line(stv[i as int])));
                assert(l0.push(st_line(stv[i as int])) =~= head + stv.map_values(
                    |st: SubTaskV| st_line(st),
                ).take(i + 1));
            }
            i = i + 1;
        }
        proof {
            assert(stv.map_values(|st: SubTaskV| st_line(st)).take(stv.len() as int) =~= st_lines(
                stv,
            ));
        }
    }
    ls.push(Vec::new());
    ls.push(str_to_chars("## Memo"));
    ls.push(Vec::new());
    proof {
        assert(line_views(ls@) =~~= head + st_lines(stv) + seq![
            Seq::<char>::empty(),
            "## Memo"@,
            Seq::<char>::empty(),
        ]);
        assert(head =~~= seq![
            "# "@ + task@.title,
            Seq::<char>::empty(),
            "## Metadata"@,
            Seq::<char>::empty(),
            meta_bullet("created"@, task@.created),
            meta_bullet("updated"@, task@.updated),
            meta_bullet("status"@, task@.status),
            meta_bullet("priority"@, task@.priority),
            meta_bullet("due"@, task@.due),
            meta_bullet("assignee"@, task@.assignee),
            Seq::<char>::empty(),
            "## Sub-tasks"@,
            Seq::<char>::empty(),
        ]);
        assert(line_views(ls@) =~~= pre_memo_lines(task@));
    }
    let mut out = unlines_chars(&ls);
    if task.memo.as_str().unicode_len() == 0 {
        let dash = str_to_chars("-");
        push_all(&mut out, &dash);
    } else {
        let mc = str_to_chars(task.memo.as_str());
        push_all(&mut out, &mc);
    }
    out.push('\n');
    proof {
        assert(out@ =~= spec_encode(task@));
    }
    chars_to_string(&out)
}

} // verus!
