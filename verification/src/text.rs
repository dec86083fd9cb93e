//! Character-sequence groundwork for the document codec: whitespace,
//! trimming, substring search, line splitting and joining, with the
//! specification functions the contracts of the codec are stated over.

use vstd::prelude::*;

verus! {

/// The whitespace class used when values are trimmed and the gaps inside
/// bullet lines are skipped: the ASCII whitespace characters.
pub open spec fn is_ws(c: char) -> bool {
    c == ' ' || c == '\t' || c == '\n' || c == '\r' || c == '\u{b}' || c == '\u{c}'
}

pub fn is_ws_char(c: char) -> (r: bool)
    ensures
        r == is_ws(c),
{
    c == ' ' || c == '\t' || c == '\n' || c == '\r' || c == '\u{b}' || c == '\u{c}'
}

/// The sequence with its leading whitespace removed.
pub open spec fn trim_start_spec(s: Seq<char>) -> Seq<char>
    decreases s.len(),
{
    if s.len() == 0 {
        s
    } else if is_ws(s[0]) {
        trim_start_spec(s.drop_first())
    } else {
        s
    }
}

/// The sequence with its trailing whitespace removed.
pub open spec fn trim_end_spec(s: Seq<char>) -> Seq<char>
    decreases s.len(),
{
    if s.len() == 0 {
        s
    } else if is_ws(s[s.len() - 1]) {
        trim_end_spec(s.drop_last())
    } else {
        s
    }
}

/// The sequence with whitespace removed from both ends.
pub open spec fn trim_spec(s: Seq<char>) -> Seq<char> {
    trim_end_spec(trim_start_spec(s))
}

pub proof fn lemma_trim_start_at(s: Seq<char>, i: int)
    requires
        0 <= i <= s.len(),
        forall|j: int| 0 <= j < i ==> is_ws(s[j]),
        i == s.len() || !is_ws(s[i]),
    ensures
        trim_start_spec(s) == s.skip(i),
    decreases i,
{
    if i == 0 {
        assert(s.skip(0) =~= s);
    } else {
        lemma_trim_start_at(s.drop_first(), i - 1);
        assert(s.drop_first().skip(i - 1) =~= s.skip(i));
    }
}

pub proof fn lemma_trim_end_at(s: Seq<char>, i: int)
    requires
        0 <= i <= s.len(),
        forall|j: int| i <= j < s.len() ==> is_ws(s[j]),
        i == 0 || !is_ws(s[i - 1]),
    ensures
        trim_end_spec(s) == s.take(i),
    decreases s.len() - i,
{
    if i == s.len() {
        assert(s.take(i) =~= s);
    } else {
        lemma_trim_end_at(s.drop_last(), i);
        assert(s.drop_last().take(i) =~= s.take(i));
    }
}

/// Trims both ends of a character vector, as [`trim_spec`] describes.
#[verifier::loop_isolation(false)]
pub fn trim_chars(s: &Vec<char>) -> (r: Vec<char>)
    ensures
        r@ == trim_spec(s@),
{
    let mut lo: usize = 0;
    while lo < s.len() && is_ws_char(s[lo])
        invariant
            0 <= lo <= s.len(),
            forall|j: int| 0 <= j < lo ==> is_ws(s@[j]),
        decreases s.len() - lo,
    {
        lo = lo + 1;
    }
    proof {
        lemma_trim_start_at(s@, lo as int);
    }
    let mut hi: usize = s.len();
    while hi > lo && is_ws_char(s[hi - 1])
        invariant
            lo <= hi <= s.len(),
            forall|j: int| hi <= j < s.len() ==> is_ws(s@[j]),
        decreases hi,
    {
        hi = hi - 1;
    }
    proof {
        assert forall|j: int| hi - lo <= j < s@.skip(lo as int).len() implies is_ws(
            s@.skip(lo as int)[j],
        ) by {
            assert(s@.skip(lo as int)[j] == s@[j + lo]);
        }
        lemma_trim_end_at(s@.skip(lo as int), hi - lo);
    }
    let mut r: Vec<char> = Vec::new();
    let mut i: usize = lo;
    while i < hi
        invariant
            lo <= i <= hi,
            r@ == s@.subrange(lo as int, i as int),
        decreases hi - i,
    {
        let c = s[i];
        r.push(c);
        proof {
            assert(r@ =~= s@.subrange(lo as int, i + 1));
        }
        i = i + 1;
    }
    proof {
        assert(r@ =~= s@.skip(lo as int).take(hi - lo));
    }
    r
}

/// Whether `p` occurs in `s` starting at position `k`.
pub open spec fn seq_matches_at(s: Seq<char>, p: Seq<char>, k: int) -> bool {
    0 <= k && k + p.len() <= s.len() && s.subrange(k, k + p.len()) == p
}

/// Whether `p` occurs anywhere in `s`.
pub open spec fn contains_seq(s: Seq<char>, p: Seq<char>) -> bool {
    exists|k: int| seq_matches_at(s, p, k)
}

/// Whether `s` begins with `p`.
pub open spec fn has_prefix(s: Seq<char>, p: Seq<char>) -> bool {
    seq_matches_at(s, p, 0)
}

/// Whether `s` ends with `p`.
pub open spec fn has_suffix(s: Seq<char>, p: Seq<char>) -> bool {
    seq_matches_at(s, p, s.len() - p.len())
}

#[verifier::loop_isolation(false)]
pub fn matches_at(s: &Vec<char>, p: &Vec<char>, k: usize) -> (r: bool)
    requires
        k + p@.len() <= s@.len(),
    ensures
        r == seq_matches_at(s@, p@, k as int),
{
    let n = s.len();
    let mut i: usize = 0;
    while i < p.len()
        invariant
            0 <= i <= p.len(),
            n == s@.len(),
            k + p@.len() <= s@.len(),
            forall|j: int| 0 <= j < i ==> s@[k + j] == p@[j],
        decreases p.len() - i,
    {
        if s[k + i] != p[i] {
            proof {
                assert(s@.subrange(k as int, k + p@.len())[i as int] != p@[i as int]);
            }
            return false;
        }
        i = i + 1;
    }
    proof {
        assert(s@.subrange(k as int, k + p@.len()) =~= p@);
    }
    true
}

pub fn starts_with_chars(s: &Vec<char>, p: &Vec<char>) -> (r: bool)
    ensures
        r == has_prefix(s@, p@),
{
    if p.len() > s.len() {
        false
    } else {
        matches_at(s, p, 0)
    }
}

pub fn ends_with_chars(s: &Vec<char>, p: &Vec<char>) -> (r: bool)
    ensures
        r == has_suffix(s@, p@),
{
    if p.len() > s.len() {
        false
    } else {
        matches_at(s, p, s.len() - p.len())
    }
}

#[verifier::loop_isolation(false)]
pub fn contains_chars(s: &Vec<char>, p: &Vec<char>) -> (r: bool)
    ensures
        r == contains_seq(s@, p@),
{
    if p.len() > s.len() {
        return false;
    }
    if p.len() == 0 {
        proof {
            assert(seq_matches_at(s@, p@, 0)) by {
                assert(s@.subrange(0, 0) =~= p@);
            }
        }
        return true;
    }
    let mut k: usize = 0;
    while k <= s.len() - p.len()
        invariant
            0 <= k <= s.len() - p.len() + 1,
            0 < p@.len() <= s@.len(),
            forall|j: int| 0 <= j < k ==> !seq_matches_at(s@, p@, j),
        decreases s.len() - p.len() + 1 - k,
    {
        if matches_at(s, p, k) {
            return true;
        }
        k = k + 1;
    }
    false
}

/// Whether two character vectors hold the same characters.
pub fn chars_eq(a: &Vec<char>, b: &Vec<char>) -> (r: bool)
    ensures
        r == (a@ == b@),
{
    if a.len() != b.len() {
        return false;
    }
    let r = matches_at(a, b, 0);
    proof {
        if r {
            assert(a@ =~= a@.subrange(0, b@.len() as int));
        } else {
            assert(a@.subrange(0, b@.len() as int) =~= a@);
        }
    }
    r
}

/// The index of the first occurrence of `c` in `s`, or `s.len()` if none.
pub open spec fn find_first(s: Seq<char>, c: char) -> int
    decreases s.len(),
{
    if s.len() == 0 {
        0
    } else if s[0] == c {
        0
    } else {
        1 + find_first(s.drop_first(), c)
    }
}

pub proof fn lemma_find_first_at(s: Seq<char>, c: char, i: int)
    requires
        0 <= i <= s.len(),
        forall|j: int| 0 <= j < i ==> s[j] != c,
        i == s.len() || s[i] == c,
    ensures
        find_first(s, c) == i,
    decreases i,
{
    if i == 0 {
    } else {
        lemma_find_first_at(s.drop_first(), c, i - 1);
    }
}

#[verifier::loop_isolation(false)]
pub fn find_char(s: &Vec<char>, c: char) -> (r: usize)
    ensures
        r == find_first(s@, c),
        r <= s@.len(),
{
    let mut i: usize = 0;
    while i < s.len()
        invariant
            0 <= i <= s.len(),
            forall|j: int| 0 <= j < i ==> s@[j] != c,
        decreases s.len() - i,
    {
        if s[i] == c {
            proof {
                lemma_find_first_at(s@, c, i as int);
            }
            return i;
        }
        i = i + 1;
    }
    proof {
        lemma_find_first_at(s@, c, s@.len() as int);
    }
    s.len()
}

/// Copies `s[from..to]` into a fresh vector.
#[verifier::loop_isolation(false)]
pub fn sub_chars(s: &Vec<char>, from: usize, to: usize) -> (r: Vec<char>)
    requires
        from <= to <= s@.len(),
    ensures
        r@ == s@.subrange(from as int, to as int),
{
    let mut r: Vec<char> = Vec::new();
    let mut i: usize = from;
    while i < to
        invariant
            from <= i <= to,
            r@ == s@.subrange(from as int, i as int),
        decreases to - i,
    {
        let c = s[i];
        r.push(c);
        proof {
            assert(r@ =~= s@.subrange(from as int, i + 1));
        }
        i = i + 1;
    }
    r
}

/// The first index at or after `i` holding a non-whitespace character,
/// or `s.len()` if all of them are whitespace.
pub open spec fn skip_ws_from(s: Seq<char>, i: int) -> int
    decreases s.len() - i,
{
    if i < 0 || i >= s.len() {
        i
    } else if is_ws(s[i]) {
        skip_ws_from(s, i + 1)
    } else {
        i
    }
}

pub proof fn lemma_skip_ws_bounds(s: Seq<char>, i: int)
    requires
        0 <= i <= s.len(),
    ensures
        i <= skip_ws_from(s, i) <= s.len(),
        forall|j: int| i <= j < skip_ws_from(s, i) ==> is_ws(s[j]),
        skip_ws_from(s, i) < s.len() ==> !is_ws(s[skip_ws_from(s, i)]),
    decreases s.len() - i,
{
    if i < s.len() && is_ws(s[i]) {
        lemma_skip_ws_bounds(s, i + 1);
    }
}

pub proof fn lemma_skip_ws_at(s: Seq<char>, start: int, i: int)
    requires
        0 <= start <= i <= s.len(),
        forall|j: int| start <= j < i ==> is_ws(s[j]),
        i == s.len() || !is_ws(s[i]),
    ensures
        skip_ws_from(s, start) == i,
    decreases i - start,
{
    if start < i {
        lemma_skip_ws_at(s, start + 1, i);
    }
}

/// The least index of a line that contains `marker`, or `lines.len()` if
/// no line does.
pub open spec fn first_containing(lines: Seq<Seq<char>>, marker: Seq<char>) -> int
    decreases lines.len(),
{
    if lines.len() == 0 {
        0
    } else if contains_seq(lines[0], marker) {
        0
    } else {
        1 + first_containing(lines.drop_first(), marker)
    }
}

pub proof fn lemma_first_containing_at(lines: Seq<Seq<char>>, marker: Seq<char>, i: int)
    requires
        0 <= i <= lines.len(),
        forall|j: int| 0 <= j < i ==> !contains_seq(lines[j], marker),
        i == lines.len() || contains_seq(lines[i], marker),
    ensures
        first_containing(lines, marker) == i,
    decreases i,
{
    if i > 0 {
        lemma_first_containing_at(lines.drop_first(), marker, i - 1);
    }
}

/// Copies the characters of a string into a vector.
#[verifier::loop_isolation(false)]
pub fn str_to_chars(s: &str) -> (v: Vec<char>)
    ensures
        v@ == s@,
{
    let n = s.unicode_len();
    let mut v: Vec<char> = Vec::new();
    let mut i: usize = 0;
    while i < n
        invariant
            0 <= i <= n,
            n == s@.len(),
            v@ == s@.take(i as int),
        decreases n - i,
    {
        let c = s.get_char(i);
        v.push(c);
        proof {
            assert(v@ =~= s@.take(i + 1));
        }
        i = i + 1;
    }
    proof {
        assert(s@.take(n as int) =~= s@);
    }
    v
}

/// Relies on `String::from_iter` over `core::str::Chars`: collecting
/// characters yields the string made of exactly those characters in order.
#[verifier::external_body]
pub fn chars_to_string(v: &Vec<char>) -> (s: String)
    ensures
        s@ == v@,
{
    v.iter().collect()
}

pub proof fn lemma_skip_step<A>(s: Seq<A>, i: int)
    requires
        0 <= i < s.len(),
    ensures
        s.skip(i).len() == s.len() - i,
        s.skip(i)[0] == s[i],
        s.skip(i).drop_first() == s.skip(i + 1),
{
    assert(s.skip(i).drop_first() =~= s.skip(i + 1));
}

/// A line as produced by splitting: its optional trailing carriage return
/// removed.
pub open spec fn strip_cr(s: Seq<char>) -> Seq<char> {
    if s.len() > 0 && s[s.len() - 1] == '\r' {
        s.drop_last()
    } else {
        s
    }
}

/// The worker behind [`lines_spec`]: `cur` is the partial line read so far.
pub open spec fn lines_rec(s: Seq<char>, cur: Seq<char>) -> Seq<Seq<char>>
    decreases s.len(),
{
    if s.len() == 0 {
        if cur.len() == 0 {
            Seq::empty()
        } else {
            seq![cur]
        }
    } else if s[0] == '\n' {
        seq![strip_cr(cur)] + lines_rec(s.drop_first(), Seq::empty())
    } else {
        lines_rec(s.drop_first(), cur.push(s[0]))
    }
}

/// The lines of a text: split at `'\n'`, a carriage return before the split
/// removed, a final line ending optional.
pub open spec fn lines_spec(s: Seq<char>) -> Seq<Seq<char>> {
    lines_rec(s, Seq::empty())
}

/// Splits a character vector into its lines, as [`lines_spec`] describes.
#[verifier::loop_isolation(false)]
pub fn split_lines(s: &Vec<char>) -> (r: Vec<Vec<char>>)
    ensures
        r@.map_values(|l: Vec<char>| l@) == lines_spec(s@),
{
    let mut r: Vec<Vec<char>> = Vec::new();
    let mut cur: Vec<char> = Vec::new();
    let mut i: usize = 0;
    proof {
        assert(s@.skip(0) =~= s@);
        assert(r@.map_values(|l: Vec<char>| l@) + lines_rec(s@, cur@) =~= lines_rec(s@, cur@));
    }
    while i < s.len()
        invariant
            0 <= i <= s.len(),
            lines_spec(s@) == r@.map_values(|l: Vec<char>| l@) + lines_rec(s@.skip(i as int), cur@),
        decreases s.len() - i,
    {
        let c = s[i];
        proof {
            lemma_skip_step(s@, i as int);
        }
        if c == '\n' {
            let ghost r0 = r@.map_values(|l: Vec<char>| l@);
            let ghost cur0 = cur@;
            if cur.len() > 0 && cur[cur.len() - 1] == '\r' {
                cur.pop();
            }
            proof {
                assert(cur@ =~= strip_cr(cur0));
            }
            r.push(cur);
            cur = Vec::new();
            proof {
                assert(r@.map_values(|l: Vec<char>| l@) =~= r0.push(strip_cr(cur0)));
                assert(r0.push(strip_cr(cur0)) + lines_rec(s@.skip(i + 1), cur@) =~= r0 + (seq![
                    strip_cr(cur0),
                ] + lines_rec(s@.skip(i + 1), cur@)));
            }
        } else {
            cur.push(c);
        }
        i = i + 1;
    }
    proof {
        assert(s@.skip(s@.len() as int) =~= Seq::<char>::empty());
    }
    if cur.len() > 0 {
        let ghost r0 = r@.map_values(|l: Vec<char>| l@);
        let ghost cur0 = cur@;
        r.push(cur);
        proof {
            assert(r@.map_values(|l: Vec<char>| l@) =~= r0.push(cur0));
            assert(r0.push(cur0) =~= r0 + seq![cur0]);
        }
    } else {
        proof {
            assert(lines_spec(s@) =~= r@.map_values(|l: Vec<char>| l@));
        }
    }
    r
}

/// The text whose lines are `ls`, each line followed by a newline.
pub open spec fn unlines(ls: Seq<Seq<char>>) -> Seq<char>
    decreases ls.len(),
{
    if ls.len() == 0 {
        Seq::empty()
    } else {
        ls[0] + seq!['\n'] + unlines(ls.drop_first())
    }
}

/// The lines `ls` joined by single newlines, with no trailing newline.
pub open spec fn join_lines(ls: Seq<Seq<char>>) -> Seq<char> {
    if ls.len() == 0 {
        Seq::empty()
    } else {
        ls[0] + join_rest(ls.drop_first())
    }
}

pub open spec fn join_rest(ls: Seq<Seq<char>>) -> Seq<char>
    decreases ls.len(),
{
    if ls.len() == 0 {
        Seq::empty()
    } else {
        seq!['\n'] + ls[0] + join_rest(ls.drop_first())
    }
}

/// The lines among `ls` whose trimmed text is nonempty.
pub open spec fn keep_nonblank(ls: Seq<Seq<char>>) -> Seq<Seq<char>>
    decreases ls.len(),
{
    if ls.len() == 0 {
        Seq::empty()
    } else if trim_spec(ls[0]).len() == 0 {
        keep_nonblank(ls.drop_first())
    } else {
        seq![ls[0]] + keep_nonblank(ls.drop_first())
    }
}

/// Appends all of `src` to `out`.
#[verifier::loop_isolation(false)]
pub fn push_all(out: &mut Vec<char>, src: &Vec<char>)
    ensures
        final(out)@ == old(out)@ + src@,
{
    let mut i: usize = 0;
    while i < src.len()
        invariant
            0 <= i <= src.len(),
            out@ == old(out)@ + src@.take(i as int),
        decreases src.len() - i,
    {
        let c = src[i];
        out.push(c);
        proof {
            assert(old(out)@ + src@.take(i + 1) =~= (old(out)@ + src@.take(i as int)).push(
                src@[i as int],
            ));
        }
        i = i + 1;
    }
    proof {
        assert(src@.take(src@.len() as int) =~= src@);
    }
}

/// Concatenates lines with a newline after each one, as [`unlines`]
/// describes.
#[verifier::loop_isolation(false)]
pub fn unlines_chars(ls: &Vec<Vec<char>>) -> (r: Vec<char>)
    ensures
        r@ == unlines(ls@.map_values(|l: Vec<char>| l@)),
{
    let ghost lsv = ls@.map_values(|l: Vec<char>| l@);
    let mut r: Vec<char> = Vec::new();
    let mut i: usize = 0;
    proof {
        assert(lsv.skip(0) =~= lsv);
        assert(r@ + unlines(lsv) =~= unlines(lsv));
    }
    while i < ls.len()
        invariant
            0 <= i <= ls.len(),
            lsv == ls@.map_values(|l: Vec<char>| l@),
            unlines(lsv) == r@ + unlines(lsv.skip(i as int)),
        decreases ls.len() - i,
    {
        proof {
            lemma_skip_step(lsv, i as int);
        }
        let ghost r0 = r@;
        push_all(&mut r, &ls[i]);
        r.push('\n');
        proof {
            assert(r@ + unlines(lsv.skip(i + 1)) =~= r0 + (lsv[i as int] + seq!['\n'] + unlines(
                lsv.skip(i + 1),
            )));
        }
        i = i + 1;
    }
    proof {
        assert(unlines(lsv.skip(lsv.len() as int)) =~= Seq::<char>::empty());
        assert(r@ + Seq::<char>::empty() =~= r@);
    }
    r
}

pub proof fn lemma_contains_concat_left(x: Seq<char>, y: Seq<char>, q: Seq<char>)
    requires
        contains_seq(x, q),
    ensures
        contains_seq(x + y, q),
{
    let k = choose|k: int| seq_matches_at(x, q, k);
    assert((x + y).subrange(k, k + q.len() as int) =~= x.subrange(k, k + q.len() as int));
    assert(seq_matches_at(x + y, q, k));
}

pub proof fn lemma_contains_concat_right(x: Seq<char>, y: Seq<char>, q: Seq<char>)
    requires
        contains_seq(y, q),
    ensures
        contains_seq(x + y, q),
{
    let k = choose|k: int| seq_matches_at(y, q, k);
    assert((x + y).subrange(x.len() + k, x.len() + k + q.len() as int) =~= y.subrange(
        k,
        k + q.len() as int,
    ));
    assert(seq_matches_at(x + y, q, x.len() + k));
}

/// A pattern found in a sequence brings its every prefix with it.
pub proof fn lemma_contains_mono(s: Seq<char>, m: Seq<char>, n: int)
    requires
        0 <= n <= m.len(),
        contains_seq(s, m),
    ensures
        contains_seq(s, m.subrange(0, n)),
{
    let k = choose|k: int| seq_matches_at(s, m, k);
    assert(s.subrange(k, k + n) =~= m.subrange(0, n));
    assert(seq_matches_at(s, m.subrange(0, n), k));
}

/// A sequence without a `'#'` cannot contain a level-2 heading marker.
pub proof fn lemma_no_hash_no_marker(s: Seq<char>)
    requires
        forall|j: int| 0 <= j < s.len() ==> s[j] != '#',
    ensures
        !contains_seq(s, "## "@),
{
    reveal_strlit("## ");
    assert forall|k: int| !seq_matches_at(s, "## "@, k) by {
        if seq_matches_at(s, "## "@, k) {
            assert(s.subrange(k, k + 3)[0] == s[k]);
        }
    }
}

/// Two pieces free of the level-2 heading marker stay free of it when the
/// first does not end in `'#'`.
pub proof fn lemma_marker_free_concat(x: Seq<char>, y: Seq<char>)
    requires
        !contains_seq(x, "## "@),
        !contains_seq(y, "## "@),
        x.len() == 0 || x[x.len() - 1] != '#',
    ensures
        !contains_seq(x + y, "## "@),
{
    reveal_strlit("## ");
    let s = x + y;
    assert forall|k: int| !seq_matches_at(s, "## "@, k) by {
        if seq_matches_at(s, "## "@, k) {
            if k + 3 <= x.len() {
                assert(x.subrange(k, k + 3) =~= s.subrange(k, k + 3));
                assert(seq_matches_at(x, "## "@, k));
            } else if k >= x.len() {
                assert(y.subrange(k - x.len(), k - x.len() + 3) =~= s.subrange(k, k + 3));
                assert(seq_matches_at(y, "## "@, k - x.len()));
            } else if k == x.len() - 1 {
                assert(s.subrange(k, k + 3)[0] == x[x.len() - 1]);
            } else {
                assert(k == x.len() - 2);
                assert(s.subrange(k, k + 3)[1] == x[x.len() - 1]);
            }
        }
    }
}

pub proof fn lemma_find_first_props(s: Seq<char>, c: char)
    ensures
        0 <= find_first(s, c) <= s.len(),
        forall|j: int| 0 <= j < find_first(s, c) ==> s[j] != c,
        find_first(s, c) < s.len() ==> s[find_first(s, c)] == c,
    decreases s.len(),
{
    if s.len() > 0 && s[0] != c {
        lemma_find_first_props(s.drop_first(), c);
        let i = find_first(s, c);
        assert(i == 1 + find_first(s.drop_first(), c));
        assert forall|j: int| 0 <= j < i implies s[j] != c by {
            if j > 0 {
                assert(s.drop_first()[j - 1] == s[j]);
            }
        }
        if i < s.len() {
            assert(s.drop_first()[i - 1] == s[i]);
        }
    }
}

/// Reading a newline-free piece only grows the pending line.
pub proof fn lemma_lines_rec_no_nl(l: Seq<char>, s: Seq<char>, cur: Seq<char>)
    requires
        forall|j: int| 0 <= j < l.len() ==> l[j] != '\n',
    ensures
        lines_rec(l + s, cur) == lines_rec(s, cur + l),
    decreases l.len(),
{
    if l.len() == 0 {
        assert(l + s =~= s);
        assert(cur + l =~= cur);
    } else {
        assert((l + s)[0] == l[0]);
        assert((l + s).drop_first() =~= l.drop_first() + s);
        lemma_lines_rec_no_nl(l.drop_first(), s, cur.push(l[0]));
        assert(cur.push(l[0]) + l.drop_first() =~= cur + l);
    }
}

/// Splitting inverts joining: the lines of `unlines(ls)` are `ls` again,
/// provided no line holds a newline or a carriage return.
pub proof fn lemma_lines_unlines(ls: Seq<Seq<char>>)
    requires
        forall|k: int| 0 <= k < ls.len() ==> no_nl_cr(#[trigger] ls[k]),
    ensures
        lines_spec(unlines(ls)) == ls,
    decreases ls.len(),
{
    if ls.len() == 0 {
    } else {
        let rest = ls.drop_first();
        assert(unlines(ls) =~= ls[0] + (seq!['\n'] + unlines(rest)));
        assert(no_nl_cr(ls[0]));
        lemma_lines_rec_no_nl(ls[0], seq!['\n'] + unlines(rest), Seq::empty());
        assert(Seq::empty() + ls[0] =~= ls[0]);
        assert((seq!['\n'] + unlines(rest))[0] == '\n');
        assert((seq!['\n'] + unlines(rest)).drop_first() =~= unlines(rest));
        assert(strip_cr(ls[0]) == ls[0]);
        assert forall|k: int| 0 <= k < rest.len() implies no_nl_cr(#[trigger] rest[k]) by {
            assert(rest[k] == ls[k + 1]);
        }
        lemma_lines_unlines(rest);
        assert(seq![ls[0]] + rest =~= ls);
    }
}

/// A nonempty line list joined with terminating newlines is the separated
/// join plus one final newline.
pub proof fn lemma_unlines_join(ls: Seq<Seq<char>>)
    requires
        ls.len() > 0,
    ensures
        unlines(ls) == join_lines(ls) + seq!['\n'],
    decreases ls.len(),
{
    let rest = ls.drop_first();
    if rest.len() == 0 {
        assert(unlines(rest) =~= Seq::<char>::empty());
        assert(join_rest(rest) =~= Seq::<char>::empty());
        assert(unlines(ls) =~= ls[0] + seq!['\n']);
        assert(join_lines(ls) + seq!['\n'] =~= ls[0] + seq!['\n']);
    } else {
        lemma_unlines_join(rest);
        assert(join_rest(rest) =~= seq!['\n'] + join_lines(rest));
        assert(unlines(ls) =~= (ls[0] + join_rest(rest)) + seq!['\n']);
    }
}

pub proof fn lemma_lines_rec_len_pos(s: Seq<char>, cur: Seq<char>)
    requires
        s.len() > 0 || cur.len() > 0,
    ensures
        lines_rec(s, cur).len() > 0,
    decreases s.len(),
{
    if s.len() > 0 && s[0] != '\n' {
        lemma_lines_rec_len_pos(s.drop_first(), cur.push(s[0]));
    }
}

/// Joining inverts splitting: a nonempty text free of carriage returns and
/// without a trailing newline is the newline-join of its lines.
pub proof fn lemma_join_lines_inv(m: Seq<char>)
    requires
        m.len() > 0,
        forall|j: int| 0 <= j < m.len() ==> m[j] != '\r',
        m[m.len() - 1] != '\n',
    ensures
        join_lines(lines_spec(m)) == m,
    decreases m.len(),
{
    lemma_find_first_props(m, '\n');
    let i = find_first(m, '\n');
    if i == m.len() {
        lemma_lines_rec_no_nl(m, Seq::empty(), Seq::empty());
        assert(m + Seq::<char>::empty() =~= m);
        assert(Seq::<char>::empty() + m =~= m);
        assert(lines_spec(m) =~= seq![m]);
        assert(join_lines(seq![m]) =~= m);
    } else {
        let pre = m.subrange(0, i);
        let suf = m.skip(i + 1);
        assert(m =~= pre + (seq!['\n'] + suf));
        lemma_lines_rec_no_nl(pre, seq!['\n'] + suf, Seq::empty());
        assert(Seq::empty() + pre =~= pre);
        assert((seq!['\n'] + suf)[0] == '\n');
        assert((seq!['\n'] + suf).drop_first() =~= suf);
        assert(strip_cr(pre) == pre);
        assert(lines_spec(m) =~= seq![pre] + lines_spec(suf));
        assert(suf.len() > 0) by {
            assert(m[m.len() - 1] != '\n');
        }
        assert(forall|j: int| 0 <= j < suf.len() ==> suf[j] != '\r');
        assert(suf[suf.len() - 1] == m[m.len() - 1]);
        lemma_join_lines_inv(suf);
        lemma_lines_rec_len_pos(suf, Seq::empty());
        let lsk = lines_spec(suf);
        assert((seq![pre] + lsk).drop_first() =~= lsk);
        assert(join_rest(lsk) =~= seq!['\n'] + join_lines(lsk));
        assert(join_lines(seq![pre] + lsk) =~= pre + (seq!['\n'] + suf));
    }
}

/// A line without newlines or carriage returns.
pub open spec fn no_nl_cr(l: Seq<char>) -> bool {
    forall|j: int| 0 <= j < l.len() ==> #[trigger] l[j] != '\n' && l[j] != '\r'
}

/// The lines of a text free of carriage returns hold neither newlines nor
/// carriage returns, provided the pending line holds none.
pub proof fn lemma_lines_clean(s: Seq<char>, cur: Seq<char>)
    requires
        forall|j: int| 0 <= j < s.len() ==> s[j] != '\r',
        no_nl_cr(cur),
    ensures
        forall|k: int| 0 <= k < lines_rec(s, cur).len() ==> no_nl_cr(#[trigger] lines_rec(s, cur)[k]),
    decreases s.len(),
{
    let out = lines_rec(s, cur);
    if s.len() == 0 {
        assert forall|k: int| 0 <= k < out.len() implies no_nl_cr(out[k]) by {
            assert(out[k] == cur);
        }
    } else if s[0] == '\n' {
        lemma_lines_clean(s.drop_first(), Seq::empty());
        assert(strip_cr(cur) == cur);
        let rec = lines_rec(s.drop_first(), Seq::empty());
        assert forall|k: int| 0 <= k < out.len() implies no_nl_cr(out[k]) by {
            if k == 0 {
                assert(out[0] == cur);
            } else {
                assert(out[k] == rec[k - 1]);
            }
        }
    } else {
        assert(no_nl_cr(cur.push(s[0])));
        lemma_lines_clean(s.drop_first(), cur.push(s[0]));
        let rec = lines_rec(s.drop_first(), cur.push(s[0]));
        assert forall|k: int| 0 <= k < out.len() implies no_nl_cr(out[k]) by {
            assert(out[k] == rec[k]);
        }
    }
}

/// A pattern absent from the whole text is absent from each of its lines.
pub proof fn lemma_lines_no_pattern(s: Seq<char>, cur: Seq<char>, q: Seq<char>)
    requires
        !contains_seq(cur + s, q),
    ensures
        forall|k: int|
            0 <= k < lines_rec(s, cur).len() ==> !contains_seq(
                #[trigger] lines_rec(s, cur)[k],
                q,
            ),
    decreases s.len(),
{
    let out = lines_rec(s, cur);
    if s.len() == 0 {
        if cur.len() > 0 {
            assert(cur + s =~= cur);
            assert forall|k: int| 0 <= k < out.len() implies !contains_seq(out[k], q) by {
                assert(out[k] == cur);
            }
        }
    } else if s[0] == '\n' {
        assert(!contains_seq(strip_cr(cur), q)) by {
            if contains_seq(strip_cr(cur), q) {
                let k = choose|k: int| seq_matches_at(strip_cr(cur), q, k);
                assert((cur + s).subrange(k, k + q.len() as int) =~= strip_cr(cur).subrange(
                    k,
                    k + q.len() as int,
                ));
                assert(seq_matches_at(cur + s, q, k));
            }
        }
        assert(!contains_seq(Seq::empty() + s.drop_first(), q)) by {
            if contains_seq(Seq::empty() + s.drop_first(), q) {
                let k = choose|k: int| seq_matches_at(Seq::empty() + s.drop_first(), q, k);
                assert((cur + s).subrange(cur.len() + 1 + k, cur.len() + 1 + k + q.len() as int)
                    =~= (Seq::empty() + s.drop_first()).subrange(k, k + q.len() as int));
                assert(seq_matches_at(cur + s, q, cur.len() + 1 + k));
            }
        }
        lemma_lines_no_pattern(s.drop_first(), Seq::empty(), q);
        let rec = lines_rec(s.drop_first(), Seq::empty());
        assert forall|k: int| 0 <= k < out.len() implies !contains_seq(out[k], q) by {
            if k == 0 {
                assert(out[0] == strip_cr(cur));
            } else {
                assert(out[k] == rec[k - 1]);
            }
        }
    } else {
        assert(cur.push(s[0]) + s.drop_first() =~= cur + s);
        lemma_lines_no_pattern(s.drop_first(), cur.push(s[0]), q);
        let rec = lines_rec(s.drop_first(), cur.push(s[0]));
        assert forall|k: int| 0 <= k < out.len() implies !contains_seq(out[k], q) by {
            assert(out[k] == rec[k]);
        }
    }
}

/// Filtering for non-blank lines keeps a list whose every line is
/// non-blank unchanged.
pub proof fn lemma_keep_nonblank_all(ls: Seq<Seq<char>>)
    requires
        forall|k: int| 0 <= k < ls.len() ==> trim_spec(#[trigger] ls[k]).len() > 0,
    ensures
        keep_nonblank(ls) == ls,
    decreases ls.len(),
{
    if ls.len() > 0 {
        lemma_keep_nonblank_all(ls.drop_first());
        assert(seq![ls[0]] + ls.drop_first() =~= ls);
    }
}

pub proof fn lemma_unlines_concat(a: Seq<Seq<char>>, b: Seq<Seq<char>>)
    ensures
        unlines(a + b) == unlines(a) + unlines(b),
    decreases a.len(),
{
    if a.len() == 0 {
        assert(a + b =~= b);
        assert(unlines(a) + unlines(b) =~= unlines(b));
    } else {
        assert((a + b)[0] == a[0]);
        assert((a + b).drop_first() =~= a.drop_first() + b);
        lemma_unlines_concat(a.drop_first(), b);
        assert(unlines(a + b) =~= unlines(a) + unlines(b));
    }
}

/// Joins lines with single newlines, as [`join_lines`] describes.
#[verifier::loop_isolation(false)]
pub fn join_lines_chars(ls: &Vec<Vec<char>>) -> (r: Vec<char>)
    ensures
        r@ == join_lines(ls@.map_values(|l: Vec<char>| l@)),
{
    let ghost lsv = ls@.map_values(|l: Vec<char>| l@);
    let mut r: Vec<char> = Vec::new();
    if ls.len() == 0 {
        return r;
    }
    push_all(&mut r, &ls[0]);
    proof {
        assert(lsv.drop_first() =~= lsv.skip(1));
        assert(r@ =~= Seq::<char>::empty() + lsv[0]);
    }
    let mut i: usize = 1;
    while i < ls.len()
        invariant
            1 <= i <= ls.len(),
            lsv == ls@.map_values(|l: Vec<char>| l@),
            lsv.len() == ls@.len(),
            join_lines(lsv) == r@ + join_rest(lsv.skip(i as int)),
        decreases ls.len() - i,
    {
        proof {
            lemma_skip_step(lsv, i as int);
        }
        let ghost r0 = r@;
        r.push('\n');
        push_all(&mut r, &ls[i]);
        proof {
            assert(r@ + join_rest(lsv.skip(i + 1)) =~= r0 + (seq!['\n'] + lsv[i as int]
                + join_rest(lsv.skip(i + 1))));
        }
        i = i + 1;
    }
    proof {
        assert(join_rest(lsv.skip(lsv.len() as int)) =~= Seq::<char>::empty());
        assert(r@ + Seq::<char>::empty() =~= r@);
    }
    r
}

} // verus!
