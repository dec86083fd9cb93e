//! The laws the codec obeys, proved once and for all: encoding followed by
//! decoding gives the record back, and a sub-tasks section never reads past
//! its closing heading.

use crate::codec::{
    bullet_value, checkbox_item, clean_value, collect_subtasks, find_bullet, first_heading_from,
    lemma_first_heading_at, meta_bullet, pre_memo_lines, spec_decode, spec_encode, spec_memo,
    spec_subtasks, spec_title, st_line, st_lines, SubTaskV, TaskV,
};
use crate::text::{
    contains_seq, first_containing, has_prefix, is_ws, keep_nonblank, lemma_contains_mono,
    lemma_find_first_at, lemma_find_first_props, lemma_first_containing_at, lemma_join_lines_inv,
    lemma_keep_nonblank_all, lemma_lines_clean, lemma_lines_no_pattern, lemma_lines_rec_len_pos,
    lemma_lines_unlines, lemma_marker_free_concat, lemma_no_hash_no_marker, lemma_skip_ws_at,
    lemma_unlines_concat, lemma_unlines_join, lines_spec, no_nl_cr, seq_matches_at,
    trim_end_spec, trim_spec, trim_start_spec, unlines,
};
use vstd::prelude::*;

verus! {

// ---------------------------------------------------------------------------
// What a record must look like for the round trip to be exact
// ---------------------------------------------------------------------------

/// A character that cannot disturb any line of the fixed template.
pub open spec fn tame_char(c: char) -> bool {
    c != '\n' && c != '\r' && c != '#'
}

pub open spec fn tame(s: Seq<char>) -> bool {
    forall|j: int| 0 <= j < s.len() ==> tame_char(#[trigger] s[j])
}

/// A metadata value that decoding hands back unchanged: nonempty, already
/// trimmed, free of line breaks, of the annotation parenthesis, and of the
/// level-2 heading marker.
pub open spec fn plain_value(v: Seq<char>) -> bool {
    &&& v.len() > 0
    &&& !is_ws(v[0])
    &&& !is_ws(v[v.len() - 1])
    &&& forall|j: int|
        0 <= j < v.len() ==> #[trigger] v[j] != '\n' && v[j] != '\r' && v[j] != '\u{ff08}'
    &&& !contains_seq(v, "## "@)
}

/// A title that decoding hands back unchanged: one line, free of the
/// heading marker.
pub open spec fn plain_title(v: Seq<char>) -> bool {
    no_nl_cr(v) && !contains_seq(v, "## "@)
}

/// A sub-task that decoding hands back unchanged: its text nonempty, not
/// the placeholder, already trimmed, one line, free of the heading marker.
pub open spec fn plain_subtask(st: SubTaskV) -> bool {
    &&& st.text.len() > 0
    &&& st.text != "-"@
    &&& !is_ws(st.text[0])
    &&& !is_ws(st.text[st.text.len() - 1])
    &&& no_nl_cr(st.text)
    &&& !contains_seq(st.text, "## "@)
}

/// A memo that decoding hands back unchanged: nonempty, free of carriage
/// returns and of the heading marker, without a trailing newline, and with
/// no blank line.
pub open spec fn plain_memo(m: Seq<char>) -> bool {
    &&& m.len() > 0
    &&& forall|j: int| 0 <= j < m.len() ==> #[trigger] m[j] != '\r'
    &&& m[m.len() - 1] != '\n'
    &&& !contains_seq(m, "## "@)
    &&& forall|k: int|
        0 <= k < lines_spec(m).len() ==> trim_spec(#[trigger] lines_spec(m)[k]).len() > 0
}

/// A record whose encoding decodes to the record itself.
pub open spec fn encodable(t: TaskV) -> bool {
    &&& plain_title(t.title)
    &&& plain_value(t.created)
    &&& plain_value(t.updated)
    &&& plain_value(t.status)
    &&& plain_value(t.priority)
    &&& plain_value(t.due)
    &&& plain_value(t.assignee)
    &&& forall|k: int| 0 <= k < t.sub_tasks.len() ==> plain_subtask(#[trigger] t.sub_tasks[k])
    &&& plain_memo(t.memo)
}

// ---------------------------------------------------------------------------
// Concrete facts about the template's fixed fragments
// ---------------------------------------------------------------------------

pub proof fn lemma_fragment_facts()
    ensures
        "- "@.len() == 2 && "- "@[0] == '-' && "- "@[1] == ' ' && tame("- "@),
        ": "@.len() == 2 && ": "@[0] == ':' && ": "@[1] == ' ' && tame(": "@),
        "[x]"@.len() == 3 && "[x]"@[0] == '[' && "[x]"@[1] == 'x' && "[x]"@[2] == ']' && tame(
            "[x]"@,
        ),
        "[ ]"@.len() == 3 && "[ ]"@[0] == '[' && "[ ]"@[1] == ' ' && "[ ]"@[2] == ']' && tame(
            "[ ]"@,
        ),
        " "@.len() == 1 && " "@[0] == ' ' && tame(" "@),
        "-"@.len() == 1 && "-"@[0] == '-' && tame("-"@),
        "- [ ] -"@.len() == 7 && "- [ ] -"@[0] == '-' && tame("- [ ] -"@),
        "# "@.len() == 2 && "# "@[0] == '#' && "# "@[1] == ' ' && no_nl_cr("# "@),
        "## "@.len() == 3 && "## "@[0] == '#' && "## "@[1] == '#' && "## "@[2] == ' ',
        "## Metadata"@.len() == 11 && "## Metadata"@[0] == '#' && no_nl_cr("## Metadata"@),
        "## Sub-tasks"@.len() == 12 && "## Sub-tasks"@[0] == '#' && no_nl_cr("## Sub-tasks"@),
        "## Memo"@.len() == 7 && "## Memo"@[0] == '#' && no_nl_cr("## Memo"@),
{
    reveal_strlit("- ");
    reveal_strlit(": ");
    reveal_strlit("[x]");
    reveal_strlit("[ ]");
    reveal_strlit(" ");
    reveal_strlit("-");
    reveal_strlit("- [ ] -");
    reveal_strlit("# ");
    reveal_strlit("## ");
    reveal_strlit("## Metadata");
    reveal_strlit("## Sub-tasks");
    reveal_strlit("## Memo");
    assert forall|j: int| 0 <= j < "- "@.len() implies tame_char("- "@[j]) by {
        if j == 0 {
        } else {
            assert(j == 1);
        }
    }
    assert forall|j: int| 0 <= j < ": "@.len() implies tame_char(": "@[j]) by {
        if j == 0 {
        } else {
            assert(j == 1);
        }
    }
    assert forall|j: int| 0 <= j < "[x]"@.len() implies tame_char("[x]"@[j]) by {
        if j == 0 {
        } else if j == 1 {
        } else {
            assert(j == 2);
        }
    }
    assert forall|j: int| 0 <= j < "[ ]"@.len() implies tame_char("[ ]"@[j]) by {
        if j == 0 {
        } else if j == 1 {
        } else {
            assert(j == 2);
        }
    }
    assert forall|j: int| 0 <= j < " "@.len() implies tame_char(" "@[j]) by {
        assert(j == 0);
    }
    assert forall|j: int| 0 <= j < "-"@.len() implies tame_char("-"@[j]) by {
        assert(j == 0);
    }
    assert forall|j: int| 0 <= j < "- [ ] -"@.len() implies tame_char("- [ ] -"@[j]) by {
        if j == 0 {
        } else if j == 1 {
        } else if j == 2 {
        } else if j == 3 {
        } else if j == 4 {
        } else if j == 5 {
        } else {
            assert(j == 6);
        }
    }
    assert forall|j: int| 0 <= j < "# "@.len() implies #[trigger] "# "@[j] != '\n' && "# "@[j]
        != '\r' by {
        if j == 0 {
        } else {
            assert(j == 1);
        }
    }
    assert forall|j: int| 0 <= j < "## Metadata"@.len() implies #[trigger] "## Metadata"@[j]
        != '\n' && "## Metadata"@[j] != '\r' by {
        if j == 0 {
        } else if j == 1 {
        } else if j == 2 {
        } else if j == 3 {
        } else if j == 4 {
        } else if j == 5 {
        } else if j == 6 {
        } else if j == 7 {
        } else if j == 8 {
        } else if j == 9 {
        } else {
            assert(j == 10);
        }
    }
    assert forall|j: int| 0 <= j < "## Sub-tasks"@.len() implies #[trigger] "## Sub-tasks"@[j]
        != '\n' && "## Sub-tasks"@[j] != '\r' by {
        if j == 0 {
        } else if j == 1 {
        } else if j == 2 {
        } else if j == 3 {
        } else if j == 4 {
        } else if j == 5 {
        } else if j == 6 {
        } else if j == 7 {
        } else if j == 8 {
        } else if j == 9 {
        } else if j == 10 {
        } else {
            assert(j == 11);
        }
    }
    assert forall|j: int| 0 <= j < "## Memo"@.len() implies #[trigger] "## Memo"@[j] != '\n'
        && "## Memo"@[j] != '\r' by {
        if j == 0 {
        } else if j == 1 {
        } else if j == 2 {
        } else if j == 3 {
        } else if j == 4 {
        } else if j == 5 {
        } else {
            assert(j == 6);
        }
    }
}

/// The three heading literals do not contain one another and each begins a
/// level-2 heading.
pub proof fn lemma_heading_facts()
    ensures
        contains_seq("## Sub-tasks"@, "## Sub-tasks"@),
        contains_seq("## Memo"@, "## Memo"@),
        !contains_seq("## Metadata"@, "## Sub-tasks"@),
        !contains_seq("## Metadata"@, "## Memo"@),
        !contains_seq("## Sub-tasks"@, "## Memo"@),
        !contains_seq("## Memo"@, "## Sub-tasks"@),
        has_prefix("## Metadata"@, "## "@),
        has_prefix("## Sub-tasks"@, "## "@),
        has_prefix("## Memo"@, "## "@),
        has_prefix("## Sub-tasks"@, "## Sub-tasks"@),
        has_prefix("## Memo"@, "## Memo"@),
{
    lemma_fragment_facts();
    reveal_strlit("## ");
    reveal_strlit("## Metadata");
    reveal_strlit("## Sub-tasks");
    reveal_strlit("## Memo");
    assert("## Sub-tasks"@.subrange(0, 12) =~= "## Sub-tasks"@);
    assert(seq_matches_at("## Sub-tasks"@, "## Sub-tasks"@, 0));
    assert("## Memo"@.subrange(0, 7) =~= "## Memo"@);
    assert(seq_matches_at("## Memo"@, "## Memo"@, 0));
    assert("## Metadata"@.subrange(0, 3) =~= "## "@);
    assert("## Sub-tasks"@.subrange(0, 3) =~= "## "@);
    assert("## Memo"@.subrange(0, 3) =~= "## "@);
    let md = "## Metadata"@;
    let st = "## Sub-tasks"@;
    let me = "## Memo"@;
    assert forall|k: int| !seq_matches_at(md, me, k) by {
        if seq_matches_at(md, me, k) {
            if k == 0 {
                assert(md.subrange(0, 7)[5] == md[5]);
            } else {
                assert(md.subrange(k, k + 7)[1] == md[k + 1]);
                if k == 1 {
                } else if k == 2 {
                } else if k == 3 {
                } else {
                    assert(k == 4);
                }
            }
        }
    }
    assert forall|k: int| !seq_matches_at(st, me, k) by {
        if seq_matches_at(st, me, k) {
            if k == 0 {
                assert(st.subrange(0, 7)[3] == st[3]);
            } else {
                assert(st.subrange(k, k + 7)[1] == st[k + 1]);
                if k == 1 {
                } else if k == 2 {
                } else if k == 3 {
                } else if k == 4 {
                } else {
                    assert(k == 5);
                }
            }
        }
    }
    assert forall|k: int| !seq_matches_at(me, st, k) by {}
}

/// The six metadata keys: their lengths, first and last characters, and
/// tameness.
pub proof fn lemma_key_facts()
    ensures
        "created"@.len() == 7 && "created"@[0] == 'c' && "created"@[6] == 'd' && tame("created"@),
        "updated"@.len() == 7 && "updated"@[0] == 'u' && "updated"@[6] == 'd' && tame("updated"@),
        "status"@.len() == 6 && "status"@[0] == 's' && "status"@[5] == 's' && tame("status"@),
        "priority"@.len() == 8 && "priority"@[0] == 'p' && "priority"@[7] == 'y' && tame(
            "priority"@,
        ),
        "due"@.len() == 3 && "due"@[0] == 'd' && "due"@[2] == 'e' && tame("due"@),
        "assignee"@.len() == 8 && "assignee"@[0] == 'a' && "assignee"@[7] == 'e' && tame(
            "assignee"@,
        ),
{
    reveal_strlit("created");
    reveal_strlit("updated");
    reveal_strlit("status");
    reveal_strlit("priority");
    reveal_strlit("due");
    reveal_strlit("assignee");
    assert forall|j: int| 0 <= j < "created"@.len() implies tame_char("created"@[j]) by {
        if j == 0 {
        } else if j == 1 {
        } else if j == 2 {
        } else if j == 3 {
        } else if j == 4 {
        } else if j == 5 {
        } else {
            assert(j == 6);
        }
    }
    assert forall|j: int| 0 <= j < "updated"@.len() implies tame_char("updated"@[j]) by {
        if j == 0 {
        } else if j == 1 {
        } else if j == 2 {
        } else if j == 3 {
        } else if j == 4 {
        } else if j == 5 {
        } else {
            assert(j == 6);
        }
    }
    assert forall|j: int| 0 <= j < "status"@.len() implies tame_char("status"@[j]) by {
        if j == 0 {
        } else if j == 1 {
        } else if j == 2 {
        } else if j == 3 {
        } else if j == 4 {
        } else {
            assert(j == 5);
        }
    }
    assert forall|j: int| 0 <= j < "priority"@.len() implies tame_char("priority"@[j]) by {
        if j == 0 {
        } else if j == 1 {
        } else if j == 2 {
        } else if j == 3 {
        } else if j == 4 {
        } else if j == 5 {
        } else if j == 6 {
        } else {
            assert(j == 7);
        }
    }
    assert forall|j: int| 0 <= j < "due"@.len() implies tame_char("due"@[j]) by {
        if j == 0 {
        } else if j == 1 {
        } else {
            assert(j == 2);
        }
    }
    assert forall|j: int| 0 <= j < "assignee"@.len() implies tame_char("assignee"@[j]) by {
        if j == 0 {
        } else if j == 1 {
        } else if j == 2 {
        } else if j == 3 {
        } else if j == 4 {
        } else if j == 5 {
        } else if j == 6 {
        } else {
            assert(j == 7);
        }
    }
}

/// Tame text has no newline, carriage return, or heading marker.
pub proof fn lemma_tame_clean(s: Seq<char>)
    requires
        tame(s),
    ensures
        no_nl_cr(s),
        !contains_seq(s, "## "@),
{
    lemma_no_hash_no_marker(s);
}

pub proof fn lemma_no_nl_cr_concat(a: Seq<char>, b: Seq<char>)
    requires
        no_nl_cr(a),
        no_nl_cr(b),
    ensures
        no_nl_cr(a + b),
{
    assert forall|j: int| 0 <= j < (a + b).len() implies #[trigger] (a + b)[j] != '\n' && (a
        + b)[j] != '\r' by {
        if j < a.len() {
            assert((a + b)[j] == a[j]);
        } else {
            assert((a + b)[j] == b[j - a.len()]);
        }
    }
}

// ---------------------------------------------------------------------------
// One template line under the matchers
// ---------------------------------------------------------------------------

/// The character layout of a rendered metadata bullet.
pub proof fn lemma_meta_bullet_chars(key: Seq<char>, v: Seq<char>)
    ensures
        meta_bullet(key, v).len() == 4 + key.len() + v.len(),
        meta_bullet(key, v)[0] == '-',
        meta_bullet(key, v)[1] == ' ',
        forall|j: int| 0 <= j < key.len() ==> meta_bullet(key, v)[2 + j] == #[trigger] key[j],
        meta_bullet(key, v)[2 + key.len() as int] == ':',
        meta_bullet(key, v)[3 + key.len() as int] == ' ',
        forall|j: int| 0 <= j < v.len() ==> meta_bullet(key, v)[4 + key.len() + j] == #[trigger] v[j],
{
    lemma_fragment_facts();
}

/// A rendered bullet read back under its own key gives the value.
pub proof fn lemma_bullet_line_value(key: Seq<char>, v: Seq<char>)
    requires
        key.len() > 0,
        !is_ws(key[0]),
        plain_value(v),
    ensures
        bullet_value(meta_bullet(key, v), key) == Some(v),
{
    lemma_meta_bullet_chars(key, v);
    let line = meta_bullet(key, v);
    lemma_skip_ws_at(line, 1, 2);
    assert(line.subrange(2, 2 + key.len() as int) =~= key);
    let rest = line.skip(3 + key.len() as int);
    assert(rest =~= seq![' '] + v);
    assert(rest.drop_first() =~= v);
    assert(trim_start_spec(rest) == trim_start_spec(v));
    assert(trim_start_spec(v) == v);
    assert(trim_end_spec(v) == v);
    assert(trim_spec(rest) == v);
    lemma_find_first_at(v, '\u{ff08}', v.len() as int);
    assert(v.take(v.len() as int) =~= v);
    assert(clean_value(rest) == v);
}

/// A rendered bullet read back under a key with a different first letter
/// matches nothing.
pub proof fn lemma_bullet_line_other(key1: Seq<char>, v: Seq<char>, key2: Seq<char>)
    requires
        key1.len() > 0,
        key2.len() > 0,
        !is_ws(key1[0]),
        key1[0] != key2[0],
    ensures
        bullet_value(meta_bullet(key1, v), key2) is None,
{
    lemma_meta_bullet_chars(key1, v);
    let line = meta_bullet(key1, v);
    lemma_skip_ws_at(line, 1, 2);
    if 2 + key2.len() + 1 < line.len() {
        assert(line.subrange(2, 2 + key2.len() as int)[0] == line[2]);
        assert(line.subrange(2, 2 + key2.len() as int) != key2);
    }
}

/// A line that does not open with a dash matches no bullet.
pub proof fn lemma_not_bullet(line: Seq<char>, key: Seq<char>)
    requires
        line.len() == 0 || line[0] != '-',
    ensures
        bullet_value(line, key) is None,
        checkbox_item(line) is None,
{
}

/// A rendered sub-task line read back as a checkbox gives the sub-task.
pub proof fn lemma_checkbox_line(st: SubTaskV)
    requires
        plain_subtask(st),
    ensures
        checkbox_item(st_line(st)) == Some(st),
{
    lemma_fragment_facts();
    let line = st_line(st);
    let b = if st.completed {
        "[x]"@
    } else {
        "[ ]"@
    };
    assert(line =~= "- "@ + b + " "@ + st.text);
    assert(line.len() == 6 + st.text.len());
    assert(line[0] == '-');
    assert(line[1] == ' ');
    assert(line[2] == '[');
    assert(line[3] == b[1]);
    assert(line[4] == ']');
    assert(line[5] == ' ');
    lemma_skip_ws_at(line, 1, 2);
    let rest = line.skip(5);
    assert(rest =~= seq![' '] + st.text);
    assert(rest.drop_first() =~= st.text);
    assert(trim_start_spec(rest) == trim_start_spec(st.text));
    assert(trim_start_spec(st.text) == st.text);
    assert(trim_end_spec(st.text) == st.text);
    assert(trim_spec(rest) == st.text);
    assert((line[3] != ' ') == st.completed);
}

/// The bullet scan skips a known-bulletless prefix.
pub proof fn lemma_find_bullet_skip(lines: Seq<Seq<char>>, key: Seq<char>, n: int)
    requires
        0 <= n <= lines.len(),
        forall|j: int| 0 <= j < n ==> bullet_value(#[trigger] lines[j], key) is None,
    ensures
        find_bullet(lines, key) == find_bullet(lines.skip(n), key),
    decreases n,
{
    if n == 0 {
        assert(lines.skip(0) =~= lines);
    } else {
        assert(bullet_value(lines[0], key) is None);
        assert forall|j: int| 0 <= j < n - 1 implies bullet_value(
            #[trigger] lines.drop_first()[j],
            key,
        ) is None by {
            assert(lines.drop_first()[j] == lines[j + 1]);
        }
        lemma_find_bullet_skip(lines.drop_first(), key, n - 1);
        assert(lines.drop_first().skip(n - 1) =~= lines.skip(n));
    }
}

/// The properties of the first-containing scan.
pub proof fn lemma_first_containing_props(lines: Seq<Seq<char>>, marker: Seq<char>)
    ensures
        0 <= first_containing(lines, marker) <= lines.len(),
        forall|j: int|
            0 <= j < first_containing(lines, marker) ==> !contains_seq(
                #[trigger] lines[j],
                marker,
            ),
        first_containing(lines, marker) < lines.len() ==> contains_seq(
            lines[first_containing(lines, marker)],
            marker,
        ),
    decreases lines.len(),
{
    if lines.len() > 0 && !contains_seq(lines[0], marker) {
        lemma_first_containing_props(lines.drop_first(), marker);
        let i = first_containing(lines, marker);
        assert forall|j: int| 0 <= j < i implies !contains_seq(#[trigger] lines[j], marker) by {
            if j > 0 {
                assert(lines.drop_first()[j - 1] == lines[j]);
            }
        }
        if i < lines.len() {
            assert(lines.drop_first()[i - 1] == lines[i]);
        }
    }
}

/// The properties of the next-heading scan.
pub proof fn lemma_first_heading_props(lines: Seq<Seq<char>>, start: int)
    requires
        0 <= start <= lines.len(),
    ensures
        start <= first_heading_from(lines, start) <= lines.len(),
        forall|j: int|
            start <= j < first_heading_from(lines, start) ==> !has_prefix(
                #[trigger] lines[j],
                "## "@,
            ),
        first_heading_from(lines, start) < lines.len() ==> has_prefix(
            lines[first_heading_from(lines, start)],
            "## "@,
        ),
    decreases lines.len() - start,
{
    if start < lines.len() && !has_prefix(lines[start], "## "@) {
        lemma_first_heading_props(lines, start + 1);
    }
}

/// The sub-task collector over a block of rendered sub-task lines yields
/// exactly those sub-tasks, then goes on behind the block.
pub proof fn lemma_collect_block(
    lines: Seq<Seq<char>>,
    i: int,
    end: int,
    sts: Seq<SubTaskV>,
)
    requires
        0 <= i,
        i + sts.len() <= end,
        forall|k: int| 0 <= k < sts.len() ==> plain_subtask(#[trigger] sts[k]),
        forall|k: int| 0 <= k < sts.len() ==> lines[i + k] == st_line(#[trigger] sts[k]),
    ensures
        collect_subtasks(lines, i, end) == sts + collect_subtasks(lines, i + sts.len(), end),
    decreases sts.len(),
{
    if sts.len() == 0 {
        assert(sts + collect_subtasks(lines, i, end) =~= collect_subtasks(lines, i, end));
    } else {
        lemma_checkbox_line(sts[0]);
        assert(lines[i] == st_line(sts[0]));
        assert(checkbox_item(lines[i]) == Some(sts[0]));
        let rest = sts.drop_first();
        assert forall|k: int| 0 <= k < rest.len() implies plain_subtask(#[trigger] rest[k])
            && lines[(i + 1) + k] == st_line(rest[k]) by {
            assert(rest[k] == sts[k + 1]);
        }
        lemma_collect_block(lines, i + 1, end, rest);
        assert(collect_subtasks(lines, i, end) =~= seq![sts[0]] + (rest + collect_subtasks(
            lines,
            i + 1 + rest.len(),
            end,
        )));
        assert(seq![sts[0]] + (rest + collect_subtasks(lines, i + 1 + rest.len(), end)) =~= sts
            + collect_subtasks(lines, i + sts.len(), end));
    }
}

// ---------------------------------------------------------------------------
// The whole encoded document, line by line
// ---------------------------------------------------------------------------

/// Every line of the encoded document: the template lines, then the memo's
/// own lines.
pub open spec fn full_lines(t: TaskV) -> Seq<Seq<char>> {
    pre_memo_lines(t) + lines_spec(t.memo)
}

/// How many lines the sub-tasks section holds.
pub open spec fn stn(t: TaskV) -> int {
    if t.sub_tasks.len() == 0 {
        1
    } else {
        t.sub_tasks.len() as int
    }
}

/// Where each template line sits.
pub proof fn lemma_layout(t: TaskV)
    ensures
        ({
            let pre = pre_memo_lines(t);
            let n = t.sub_tasks.len() as int;
            &&& pre.len() == 16 + stn(t)
            &&& pre[0] == "# "@ + t.title
            &&& pre[1] == Seq::<char>::empty()
            &&& pre[2] == "## Metadata"@
            &&& pre[3] == Seq::<char>::empty()
            &&& pre[4] == meta_bullet("created"@, t.created)
            &&& pre[5] == meta_bullet("updated"@, t.updated)
            &&& pre[6] == meta_bullet("status"@, t.status)
            &&& pre[7] == meta_bullet("priority"@, t.priority)
            &&& pre[8] == meta_bullet("due"@, t.due)
            &&& pre[9] == meta_bullet("assignee"@, t.assignee)
            &&& pre[10] == Seq::<char>::empty()
            &&& pre[11] == "## Sub-tasks"@
            &&& pre[12] == Seq::<char>::empty()
            &&& (n == 0 ==> pre[13] == "- [ ] -"@)
            &&& (forall|k: int| 0 <= k < n ==> pre[13 + k] == st_line(#[trigger] t.sub_tasks[k]))
            &&& pre[13 + stn(t)] == Seq::<char>::empty()
            &&& pre[14 + stn(t)] == "## Memo"@
            &&& pre[15 + stn(t)] == Seq::<char>::empty()
        }),
{
    let n = t.sub_tasks.len() as int;
    if n > 0 {
        assert(st_lines(t.sub_tasks).len() == n);
        assert forall|k: int| 0 <= k < n implies pre_memo_lines(t)[13 + k] == st_line(
            #[trigger] t.sub_tasks[k],
        ) by {
            assert(st_lines(t.sub_tasks)[k] == st_line(t.sub_tasks[k]));
        }
    }
}

/// The shape of one rendered sub-task line, and of the placeholder line,
/// under cleanliness and marker checks.
pub proof fn lemma_st_line_clean(st: SubTaskV)
    requires
        plain_subtask(st),
    ensures
        no_nl_cr(st_line(st)),
        !contains_seq(st_line(st), "## "@),
        st_line(st)[0] == '-',
{
    lemma_fragment_facts();
    let b = if st.completed {
        "[x]"@
    } else {
        "[ ]"@
    };
    lemma_tame_clean("- "@);
    lemma_tame_clean(b);
    lemma_tame_clean(" "@);
    lemma_no_nl_cr_concat("- "@, b);
    lemma_no_nl_cr_concat("- "@ + b, " "@);
    lemma_no_nl_cr_concat("- "@ + b + " "@, st.text);
    lemma_marker_free_concat("- "@, b);
    lemma_marker_free_concat("- "@ + b, " "@);
    lemma_marker_free_concat("- "@ + b + " "@, st.text);
    assert(("- "@ + b)[("- "@ + b).len() - 1] == b[2]);
    assert(("- "@ + b + " "@)[("- "@ + b + " "@).len() - 1] == ' ');
}

/// The shape of one rendered metadata bullet under the same checks.
pub proof fn lemma_meta_bullet_clean(key: Seq<char>, v: Seq<char>)
    requires
        tame(key),
        key.len() > 0,
        plain_value(v),
    ensures
        no_nl_cr(meta_bullet(key, v)),
        !contains_seq(meta_bullet(key, v), "## "@),
{
    lemma_fragment_facts();
    lemma_tame_clean("- "@);
    lemma_tame_clean(key);
    lemma_tame_clean(": "@);
    assert(no_nl_cr(v));
    lemma_no_nl_cr_concat("- "@, key);
    lemma_no_nl_cr_concat("- "@ + key, ": "@);
    lemma_no_nl_cr_concat("- "@ + key + ": "@, v);
    lemma_marker_free_concat("- "@, key);
    assert(("- "@ + key)[("- "@ + key).len() - 1] == key[key.len() - 1]);
    lemma_marker_free_concat("- "@ + key, ": "@);
    assert(("- "@ + key + ": "@)[("- "@ + key + ": "@).len() - 1] == ' ');
    lemma_marker_free_concat("- "@ + key + ": "@, v);
}

/// The title line under the same checks.
pub proof fn lemma_title_line_clean(title: Seq<char>)
    requires
        plain_title(title),
    ensures
        no_nl_cr("# "@ + title),
        !contains_seq("# "@ + title, "## "@),
        ("# "@ + title)[0] == '#',
        has_prefix("# "@ + title, "# "@),
{
    lemma_fragment_facts();
    lemma_no_nl_cr_concat("# "@, title);
    assert(!contains_seq("# "@, "## "@)) by {
        reveal_strlit("# ");
        reveal_strlit("## ");
    }
    lemma_marker_free_concat("# "@, title);
    assert(("# "@ + title).subrange(0, 2) =~= "# "@);
}

/// Every line of the encoded document is free of newlines and carriage
/// returns.
pub proof fn lemma_full_lines_clean(t: TaskV)
    requires
        encodable(t),
    ensures
        forall|k: int| 0 <= k < full_lines(t).len() ==> no_nl_cr(#[trigger] full_lines(t)[k]),
{
    lemma_layout(t);
    lemma_fragment_facts();
    lemma_key_facts();
    lemma_lines_clean(t.memo, Seq::empty());
    let pre = pre_memo_lines(t);
    let mlines = lines_spec(t.memo);
    let n = t.sub_tasks.len() as int;
    assert forall|k: int| 0 <= k < full_lines(t).len() implies no_nl_cr(
        #[trigger] full_lines(t)[k],
    ) by {
        if k < pre.len() {
            assert(full_lines(t)[k] == pre[k]);
            if k == 0 {
                lemma_title_line_clean(t.title);
            } else if k == 1 || k == 3 || k == 10 || k == 12 || k == 13 + stn(t) || k == 15 + stn(
                t,
            ) {
            } else if k == 2 {
            } else if k == 4 {
                lemma_meta_bullet_clean("created"@, t.created);
            } else if k == 5 {
                lemma_meta_bullet_clean("updated"@, t.updated);
            } else if k == 6 {
                lemma_meta_bullet_clean("status"@, t.status);
            } else if k == 7 {
                lemma_meta_bullet_clean("priority"@, t.priority);
            } else if k == 8 {
                lemma_meta_bullet_clean("due"@, t.due);
            } else if k == 9 {
                lemma_meta_bullet_clean("assignee"@, t.assignee);
            } else if k == 11 || k == 14 + stn(t) {
            } else {
                assert(13 <= k < 13 + stn(t));
                if n == 0 {
                    lemma_tame_clean("- [ ] -"@);
                } else {
                    assert(pre[k] == st_line(t.sub_tasks[k - 13]));
                    lemma_st_line_clean(t.sub_tasks[k - 13]);
                }
            }
        } else {
            assert(full_lines(t)[k] == mlines[k - pre.len()]);
        }
    }
}

/// Splitting the encoded document gives exactly the template lines plus
/// the memo's lines.
pub proof fn lemma_encode_lines(t: TaskV)
    requires
        encodable(t),
    ensures
        lines_spec(spec_encode(t)) == full_lines(t),
{
    let pre = pre_memo_lines(t);
    let mlines = lines_spec(t.memo);
    lemma_lines_rec_len_pos(t.memo, Seq::empty());
    lemma_join_lines_inv(t.memo);
    lemma_unlines_join(mlines);
    lemma_unlines_concat(pre, mlines);
    assert(spec_encode(t) =~= unlines(pre + mlines));
    lemma_full_lines_clean(t);
    lemma_lines_unlines(full_lines(t));
}

// ---------------------------------------------------------------------------
// Decoding the encoded document, section by section
// ---------------------------------------------------------------------------

pub proof fn lemma_decode_title(t: TaskV)
    requires
        encodable(t),
    ensures
        spec_title(full_lines(t)) == t.title,
{
    lemma_layout(t);
    lemma_title_line_clean(t.title);
    let l0 = full_lines(t)[0];
    assert(l0 == "# "@ + t.title);
    assert(l0.skip(2) =~= t.title) by {
        lemma_fragment_facts();
    }
}

/// No line before the metadata block, and no metadata bullet of another
/// key, matches a given key.
pub proof fn lemma_decode_meta(t: TaskV)
    requires
        encodable(t),
    ensures
        find_bullet(full_lines(t), "created"@) == Some(t.created),
        find_bullet(full_lines(t), "updated"@) == Some(t.updated),
        find_bullet(full_lines(t), "status"@) == Some(t.status),
        find_bullet(full_lines(t), "priority"@) == Some(t.priority),
        find_bullet(full_lines(t), "due"@) == Some(t.due),
        find_bullet(full_lines(t), "assignee"@) == Some(t.assignee),
{
    lemma_layout(t);
    lemma_key_facts();
    lemma_fragment_facts();
    lemma_title_line_clean(t.title);
    let L = full_lines(t);
    let keys = seq!["created"@, "updated"@, "status"@, "priority"@, "due"@, "assignee"@];
    let vals = seq![t.created, t.updated, t.status, t.priority, t.due, t.assignee];
    assert forall|i: int, j: int| 0 <= i < 6 && 0 <= j < 4 + i implies bullet_value(
        #[trigger] L[j],
        #[trigger] keys[i],
    ) is None by {
        if j == 0 {
            lemma_not_bullet(L[0], keys[i]);
        } else if j == 1 || j == 3 {
            lemma_not_bullet(L[j], keys[i]);
        } else if j == 2 {
            lemma_not_bullet(L[2], keys[i]);
        } else {
            assert(4 <= j < 4 + i);
            assert(L[j] == meta_bullet(keys[j - 4], vals[j - 4]));
            lemma_bullet_line_other(keys[j - 4], vals[j - 4], keys[i]);
        }
    }
    assert forall|i: int| 0 <= i < 6 implies find_bullet(L, #[trigger] keys[i]) == Some(
        vals[i],
    ) by {
        lemma_find_bullet_skip(L, keys[i], 4 + i);
        assert(L.skip(4 + i).len() > 0);
        assert(L.skip(4 + i)[0] == L[4 + i]);
        lemma_bullet_line_value(keys[i], vals[i]);
        assert(bullet_value(L.skip(4 + i)[0], keys[i]) == Some(vals[i]));
    }
    assert(find_bullet(L, "created"@) == Some(t.created));
    assert(find_bullet(L, "updated"@) == Some(t.updated));
    assert(find_bullet(L, "status"@) == Some(t.status));
    assert(find_bullet(L, "priority"@) == Some(t.priority));
    assert(find_bullet(L, "due"@) == Some(t.due));
    assert(find_bullet(L, "assignee"@) == Some(t.assignee));
}

/// The placeholder line parses as the placeholder sub-task.
pub proof fn lemma_placeholder_checkbox()
    ensures
        checkbox_item("- [ ] -"@) == Some(SubTaskV { text: "-"@, completed: false }),
{
    reveal_strlit("- [ ] -");
    reveal_strlit("-");
    let line = "- [ ] -"@;
    lemma_skip_ws_at(line, 1, 2);
    let rest = line.skip(5);
    assert(rest.len() == 2);
    assert(rest[0] == ' ' && rest[1] == '-');
    assert(rest.drop_first() =~= seq!['-']);
    assert(trim_start_spec(rest) == trim_start_spec(rest.drop_first()));
    assert(trim_spec(rest) =~= seq!['-']);
    assert(trim_spec(rest) =~= "-"@);
}

/// No template line before the memo heading, other than the two heading
/// lines themselves, contains a level-2 heading marker.
pub proof fn lemma_marker_free_lines(t: TaskV)
    requires
        encodable(t),
    ensures
        forall|j: int|
            0 <= j < 14 + stn(t) && j != 11 && j != 2 ==> !contains_seq(
                #[trigger] full_lines(t)[j],
                "## "@,
            ),
{
    lemma_layout(t);
    lemma_key_facts();
    lemma_fragment_facts();
    lemma_title_line_clean(t.title);
    let L = full_lines(t);
    let n = t.sub_tasks.len() as int;
    assert forall|j: int| 0 <= j < 14 + stn(t) && j != 11 && j != 2 implies !contains_seq(
        #[trigger] L[j],
        "## "@,
    ) by {
        if j == 0 {
        } else if j == 1 || j == 3 || j == 10 || j == 12 || j == 13 + stn(t) {
            assert(L[j].len() == 0);
            assert(!contains_seq(L[j], "## "@));
        } else if 4 <= j <= 9 {
            if j == 4 {
                lemma_meta_bullet_clean("created"@, t.created);
            } else if j == 5 {
                lemma_meta_bullet_clean("updated"@, t.updated);
            } else if j == 6 {
                lemma_meta_bullet_clean("status"@, t.status);
            } else if j == 7 {
                lemma_meta_bullet_clean("priority"@, t.priority);
            } else if j == 8 {
                lemma_meta_bullet_clean("due"@, t.due);
            } else {
                lemma_meta_bullet_clean("assignee"@, t.assignee);
            }
        } else {
            assert(13 <= j < 13 + stn(t));
            if n == 0 {
                lemma_tame_clean("- [ ] -"@);
            } else {
                assert(L[j] == st_line(t.sub_tasks[j - 13]));
                lemma_st_line_clean(t.sub_tasks[j - 13]);
            }
        }
    }
}

/// The sub-tasks marker is first found on the sub-tasks heading line.
pub proof fn lemma_subtasks_marker_pos(t: TaskV)
    requires
        encodable(t),
    ensures
        first_containing(full_lines(t), "## Sub-tasks"@) == 11,
{
    lemma_layout(t);
    lemma_marker_free_lines(t);
    lemma_heading_facts();
    let L = full_lines(t);
    assert("## Sub-tasks"@.len() == 12 && "## "@.len() == 3) by {
        reveal_strlit("## Sub-tasks");
        reveal_strlit("## ");
    }
    assert("## Sub-tasks"@.subrange(0, 3) =~= "## "@) by {
        reveal_strlit("## Sub-tasks");
        reveal_strlit("## ");
    }
    assert forall|j: int| 0 <= j < 11 implies !contains_seq(
        #[trigger] L[j],
        "## Sub-tasks"@,
    ) by {
        if j == 2 {
        } else if contains_seq(L[j], "## Sub-tasks"@) {
            lemma_contains_mono(L[j], "## Sub-tasks"@, 3);
        }
    }
    lemma_first_containing_at(L, "## Sub-tasks"@, 11);
}

/// The memo marker is first found on the memo heading line.
pub proof fn lemma_memo_marker_pos(t: TaskV)
    requires
        encodable(t),
    ensures
        first_containing(full_lines(t), "## Memo"@) == 14 + stn(t),
{
    lemma_layout(t);
    lemma_marker_free_lines(t);
    lemma_heading_facts();
    let L = full_lines(t);
    assert("## Memo"@.len() == 7 && "## "@.len() == 3) by {
        reveal_strlit("## Memo");
        reveal_strlit("## ");
    }
    assert("## Memo"@.subrange(0, 3) =~= "## "@) by {
        reveal_strlit("## Memo");
        reveal_strlit("## ");
    }
    assert forall|j: int| 0 <= j < 14 + stn(t) implies !contains_seq(
        #[trigger] L[j],
        "## Memo"@,
    ) by {
        if j == 2 || j == 11 {
        } else if contains_seq(L[j], "## Memo"@) {
            lemma_contains_mono(L[j], "## Memo"@, 3);
        }
    }
    lemma_first_containing_at(L, "## Memo"@, 14 + stn(t));
}

/// The sub-tasks span ends at the memo heading.
pub proof fn lemma_subtasks_span_end(t: TaskV)
    requires
        encodable(t),
    ensures
        first_heading_from(full_lines(t), 12) == 14 + stn(t),
{
    lemma_layout(t);
    let L = full_lines(t);
    let n = t.sub_tasks.len() as int;
    assert("## "@.len() == 3 && "## "@[0] == '#') by {
        reveal_strlit("## ");
    }
    assert("- [ ] -"@[0] == '-') by {
        reveal_strlit("- [ ] -");
    }
    assert(has_prefix("## Memo"@, "## "@)) by {
        reveal_strlit("## Memo");
        reveal_strlit("## ");
        assert("## Memo"@.subrange(0, 3) =~= "## "@);
    }
    assert forall|j: int| 12 <= j < 14 + stn(t) implies !has_prefix(
        #[trigger] L[j],
        "## "@,
    ) by {
        if L[j].len() > 0 && has_prefix(L[j], "## "@) {
            assert(L[j].subrange(0, 3)[0] == L[j][0]);
            if 13 <= j < 13 + stn(t) {
                if n == 0 {
                    assert(L[j][0] == '-');
                } else {
                    assert(L[j] == st_line(t.sub_tasks[j - 13]));
                    lemma_st_line_clean(t.sub_tasks[j - 13]);
                }
            }
        }
    }
    lemma_first_heading_at(L, 12, 14 + stn(t));
}

/// The memo span runs to the end of the document.
pub proof fn lemma_memo_span_end(t: TaskV)
    requires
        encodable(t),
    ensures
        first_heading_from(full_lines(t), 15 + stn(t)) == full_lines(t).len(),
{
    lemma_layout(t);
    lemma_fragment_facts();
    let L = full_lines(t);
    let pre = pre_memo_lines(t);
    let mlines = lines_spec(t.memo);
    assert(!contains_seq(Seq::<char>::empty() + t.memo, "## "@)) by {
        assert(Seq::<char>::empty() + t.memo =~= t.memo);
    }
    lemma_lines_no_pattern(t.memo, Seq::empty(), "## "@);
    assert forall|j: int| 15 + stn(t) <= j < L.len() implies !has_prefix(
        #[trigger] L[j],
        "## "@,
    ) by {
        if has_prefix(L[j], "## "@) {
            assert(seq_matches_at(L[j], "## "@, 0));
            assert(contains_seq(L[j], "## "@));
            if j >= pre.len() {
                assert(L[j] == mlines[j - pre.len()]);
            }
        }
    }
    lemma_first_heading_at(L, 15 + stn(t), L.len() as int);
}

pub proof fn lemma_decode_subtasks(t: TaskV)
    requires
        encodable(t),
    ensures
        spec_subtasks(full_lines(t)) == t.sub_tasks,
{
    lemma_layout(t);
    lemma_subtasks_marker_pos(t);
    lemma_subtasks_span_end(t);
    let L = full_lines(t);
    let n = t.sub_tasks.len() as int;
    lemma_not_bullet(L[12], "x"@);
    assert(checkbox_item(L[12]) is None);
    assert(collect_subtasks(L, 12, 14 + stn(t)) == collect_subtasks(L, 13, 14 + stn(t)));
    if n == 0 {
        lemma_placeholder_checkbox();
        lemma_fragment_facts();
        assert(checkbox_item(L[13]) == Some(SubTaskV { text: "-"@, completed: false }));
        assert(collect_subtasks(L, 13, 15) == collect_subtasks(L, 14, 15));
        lemma_not_bullet(L[14], "x"@);
        assert(collect_subtasks(L, 15, 15) =~= Seq::<SubTaskV>::empty());
        assert(collect_subtasks(L, 14, 15) =~= Seq::<SubTaskV>::empty());
        assert(spec_subtasks(L) =~= t.sub_tasks);
    } else {
        lemma_collect_block(L, 13, 14 + n, t.sub_tasks);
        lemma_not_bullet(L[13 + n], "x"@);
        assert(collect_subtasks(L, 14 + n, 14 + n) =~= Seq::<SubTaskV>::empty());
        assert(collect_subtasks(L, 13 + n, 14 + n) =~= Seq::<SubTaskV>::empty());
        assert(collect_subtasks(L, 13, 14 + n) =~= t.sub_tasks);
        assert(spec_subtasks(L) == t.sub_tasks);
    }
}

pub proof fn lemma_decode_memo(t: TaskV)
    requires
        encodable(t),
    ensures
        spec_memo(full_lines(t)) == t.memo,
{
    lemma_layout(t);
    lemma_memo_marker_pos(t);
    lemma_memo_span_end(t);
    let L = full_lines(t);
    let mlines = lines_spec(t.memo);
    let span = L.subrange(15 + stn(t), L.len() as int);
    assert(span =~= seq![Seq::<char>::empty()] + mlines);
    assert(trim_spec(Seq::<char>::empty()).len() == 0);
    assert(keep_nonblank(span) == keep_nonblank(mlines)) by {
        assert(span[0] == Seq::<char>::empty());
        assert(span.drop_first() =~= mlines);
    }
    lemma_keep_nonblank_all(mlines);
    lemma_join_lines_inv(t.memo);
    assert(spec_memo(L) == t.memo);
}

// ---------------------------------------------------------------------------
// The round trip itself
// ---------------------------------------------------------------------------

/// Decoding an encoded record gives the record back, for every record the
/// schema can carry faithfully.
pub proof fn lemma_round_trip(t: TaskV)
    requires
        encodable(t),
    ensures
        spec_decode(spec_encode(t), t.file_path) == t,
{
    lemma_encode_lines(t);
    lemma_decode_title(t);
    lemma_decode_meta(t);
    lemma_decode_subtasks(t);
    lemma_decode_memo(t);
    let d = spec_decode(spec_encode(t), t.file_path);
    assert(d =~= t);
}

/// A document with no level-1 heading line has the default title.
pub proof fn lemma_title_default(lines: Seq<Seq<char>>)
    requires
        forall|k: int| 0 <= k < lines.len() ==> !has_prefix(#[trigger] lines[k], "# "@),
    ensures
        spec_title(lines) == "-"@,
    decreases lines.len(),
{
    if lines.len() > 0 {
        assert forall|k: int| 0 <= k < lines.drop_first().len() implies !has_prefix(
            #[trigger] lines.drop_first()[k],
            "# "@,
        ) by {
            assert(lines.drop_first()[k] == lines[k + 1]);
        }
        lemma_title_default(lines.drop_first());
    }
}

/// A document with no bullet for a key leaves that key unmatched.
pub proof fn lemma_find_bullet_none(lines: Seq<Seq<char>>, key: Seq<char>)
    requires
        forall|k: int| 0 <= k < lines.len() ==> bullet_value(#[trigger] lines[k], key) is None,
    ensures
        find_bullet(lines, key) is None,
{
    lemma_find_bullet_skip(lines, key, lines.len() as int);
    assert(lines.skip(lines.len() as int).len() == 0);
}

/// Default substitution: decoding a document that carries no title line
/// and no metadata bullet at all yields every field's default.
pub proof fn lemma_default_substitution(text: Seq<char>, loc: Seq<char>)
    requires
        forall|k: int|
            0 <= k < lines_spec(text).len() ==> !has_prefix(
                #[trigger] lines_spec(text)[k],
                "# "@,
            ),
        forall|k: int, key: Seq<char>|
            0 <= k < lines_spec(text).len() ==> #[trigger] bullet_value(
                lines_spec(text)[k],
                key,
            ) is None,
    ensures
        spec_decode(text, loc).title == "-"@,
        spec_decode(text, loc).created == "-"@,
        spec_decode(text, loc).updated == "-"@,
        spec_decode(text, loc).status == "not started"@,
        spec_decode(text, loc).priority == "low"@,
        spec_decode(text, loc).due == "-"@,
        spec_decode(text, loc).assignee == "-"@,
{
    let lines = lines_spec(text);
    lemma_title_default(lines);
    lemma_find_bullet_none(lines, "created"@);
    lemma_find_bullet_none(lines, "updated"@);
    lemma_find_bullet_none(lines, "status"@);
    lemma_find_bullet_none(lines, "priority"@);
    lemma_find_bullet_none(lines, "due"@);
    lemma_find_bullet_none(lines, "assignee"@);
}

/// A sub-tasks section closed by a later heading reads the same however
/// the document goes on: lines after the closing heading never contribute
/// sub-tasks, even checkbox-shaped ones.
pub proof fn lemma_section_boundary(l1: Seq<Seq<char>>, l2: Seq<Seq<char>>)
    requires
        first_containing(l1, "## Sub-tasks"@) < l1.len(),
        first_heading_from(l1, first_containing(l1, "## Sub-tasks"@) + 1) < l1.len(),
    ensures
        spec_subtasks(l1 + l2) == spec_subtasks(l1),
{
    let m = first_containing(l1, "## Sub-tasks"@);
    lemma_first_containing_props(l1, "## Sub-tasks"@);
    assert forall|j: int| 0 <= j < m implies !contains_seq(
        #[trigger] (l1 + l2)[j],
        "## Sub-tasks"@,
    ) by {
        assert((l1 + l2)[j] == l1[j]);
    }
    assert((l1 + l2)[m] == l1[m]);
    lemma_first_containing_at(l1 + l2, "## Sub-tasks"@, m);
    let e = first_heading_from(l1, m + 1);
    lemma_first_heading_props(l1, m + 1);
    assert forall|j: int| m + 1 <= j < e implies !has_prefix(
        #[trigger] (l1 + l2)[j],
        "## "@,
    ) by {
        assert((l1 + l2)[j] == l1[j]);
    }
    assert((l1 + l2)[e] == l1[e]);
    lemma_first_heading_at(l1 + l2, m + 1, e);
    lemma_collect_same(l1, l2, m + 1, e);
}

/// Collecting over a span that lies inside the first piece sees only the
/// first piece.
pub proof fn lemma_collect_same(l1: Seq<Seq<char>>, l2: Seq<Seq<char>>, i: int, end: int)
    requires
        end <= l1.len(),
    ensures
        collect_subtasks(l1 + l2, i, end) == collect_subtasks(l1, i, end),
    decreases end - i,
{
    if 0 <= i < end {
        assert((l1 + l2)[i] == l1[i]);
        lemma_collect_same(l1, l2, i + 1, end);
    }
}

} // verus!
