//! Interpretation of the branch-listing output of the version-control
//! tool: each line is trimmed, its current-branch and remote prefixes are
//! stripped, symbolic entries are dropped, and duplicates between local and
//! remote listings collapse to one name each.

use crate::text::{
    chars_eq, chars_to_string, contains_chars, contains_seq, has_prefix, lemma_skip_step,
    lines_spec, split_lines, starts_with_chars, str_to_chars, sub_chars, trim_chars, trim_spec,
};
use vstd::prelude::*;

verus! {

/// `s` with every leading repetition of `p` removed.
pub open spec fn strip_prefix_all(s: Seq<char>, p: Seq<char>) -> Seq<char>
    decreases s.len(),
{
    if p.len() > 0 && has_prefix(s, p) {
        strip_prefix_all(s.skip(p.len() as int), p)
    } else {
        s
    }
}

/// What one listing line contributes: trimmed, the `"* "` marker of the
/// current branch removed, the remote prefix removed.
pub open spec fn branch_candidate(line: Seq<char>) -> Seq<char> {
    strip_prefix_all(strip_prefix_all(trim_spec(line), "* "@), "remotes/origin/"@)
}

/// Whether a candidate names a real branch: nonempty and not a symbolic
/// `HEAD` entry.
pub open spec fn branch_keep(b: Seq<char>) -> bool {
    b.len() > 0 && !contains_seq(b, "HEAD"@)
}

/// The candidates of all lines, in listing order, symbolic entries dropped.
pub open spec fn candidates(lines: Seq<Seq<char>>) -> Seq<Seq<char>>
    decreases lines.len(),
{
    if lines.len() == 0 {
        Seq::empty()
    } else if branch_keep(branch_candidate(lines[0])) {
        seq![branch_candidate(lines[0])] + candidates(lines.drop_first())
    } else {
        candidates(lines.drop_first())
    }
}

/// The elements of `s` from `i` on whose value did not already occur
/// earlier in `s`.
pub open spec fn dedup_rec(s: Seq<Seq<char>>, i: int) -> Seq<Seq<char>>
    decreases s.len() - i,
{
    if i < 0 || i >= s.len() {
        Seq::empty()
    } else if s.subrange(0, i).contains(s[i]) {
        dedup_rec(s, i + 1)
    } else {
        seq![s[i]] + dedup_rec(s, i + 1)
    }
}

/// `s` with every later duplicate removed: each value keeps its first
/// occurrence only.
pub open spec fn dedup(s: Seq<Seq<char>>) -> Seq<Seq<char>> {
    dedup_rec(s, 0)
}

/// What parsing a whole branch listing yields.
pub open spec fn spec_branches(out: Seq<char>) -> Seq<Seq<char>> {
    dedup(candidates(lines_spec(out)))
}

/// Strips every leading repetition of `p` from `s`, as
/// [`strip_prefix_all`] describes.
#[verifier::loop_isolation(false)]
fn strip_all(s: Vec<char>, p: &Vec<char>) -> (r: Vec<char>)
    requires
        p@.len() > 0,
    ensures
        r@ == strip_prefix_all(s@, p@),
    decreases s@.len(),
{
    if starts_with_chars(&s, p) {
        let rest = sub_chars(&s, p.len(), s.len());
        proof {
            assert(rest@ =~= s@.skip(p@.len() as int));
        }
        strip_all(rest, p)
    } else {
        s
    }
}

/// Parses the output of a branch listing, as [`spec_branches`] describes:
/// the distinct branch names, each under its first occurrence, in listing
/// order.
#[verifier::loop_isolation(false)]
pub fn parse_branch_list(out: &str) -> (r: Vec<String>)
    ensures
        r@.map_values(|s: String| s@) == spec_branches(out@),
{
    let oc = str_to_chars(out);
    let lines = split_lines(&oc);
    let ghost lv = lines@.map_values(|l: Vec<char>| l@);
    let star = str_to_chars("* ");
    let remote = str_to_chars("remotes/origin/");
    let head = str_to_chars("HEAD");
    let mut cands: Vec<Vec<char>> = Vec::new();
    let mut i: usize = 0;
    proof {
        reveal_strlit("* ");
        reveal_strlit("remotes/origin/");
        assert(lv.skip(0) =~= lv);
        assert(cands@.map_values(|l: Vec<char>| l@) + candidates(lv) =~= candidates(lv));
    }
    while i < lines.len()
        invariant
            0 <= i <= lines.len(),
            lv == lines@.map_values(|l: Vec<char>| l@),
            star@ == "* "@ && star@.len() > 0,
            remote@ == "remotes/origin/"@ && remote@.len() > 0,
            head@ == "HEAD"@,
            candidates(lv) == cands@.map_values(|l: Vec<char>| l@) + candidates(
                lv.skip(i as int),
            ),
        decreases lines.len() - i,
    {
        proof {
            lemma_skip_step(lv, i as int);
        }
        let trimmed = trim_chars(&lines[i]);
        let c1 = strip_all(trimmed, &star);
        let cand = strip_all(c1, &remote);
        let keep = cand.len() > 0 && !contains_chars(&cand, &head);
        if keep {
            let ghost c0 = cands@.map_values(|l: Vec<char>| l@);
            let ghost cv = cand@;
            cands.push(cand);
            proof {
                assert(cands@.map_values(|l: Vec<char>| l@) =~= c0.push(cv));
                assert(c0.push(cv) + candidates(lv.skip(i + 1)) =~= c0 + (seq![cv] + candidates(
                    lv.skip(i + 1),
                )));
            }
        }
        i = i + 1;
    }
    proof {
        assert(candidates(lv.skip(lv.len() as int)) =~= Seq::<Seq<char>>::empty());
        assert(cands@.map_values(|l: Vec<char>| l@) + Seq::<Seq<char>>::empty() =~= cands@.map_values(
            |l: Vec<char>| l@,
        ));
    }
    let ghost cs = cands@.map_values(|l: Vec<char>| l@);
    let mut r: Vec<String> = Vec::new();
    let mut i: usize = 0;
    proof {
        assert(r@.map_values(|s: String| s@) + dedup_rec(cs, 0) =~= dedup_rec(cs, 0));
    }
    while i < cands.len()
        invariant
            0 <= i <= cands.len(),
            cs == cands@.map_values(|l: Vec<char>| l@),
            dedup(cs) == r@.map_values(|s: String| s@) + dedup_rec(cs, i as int),
        decreases cands.len() - i,
    {
        let mut seen = false;
        let mut j: usize = 0;
        while j < i
            invariant
                0 <= j <= i <= cands.len(),
                cs == cands@.map_values(|l: Vec<char>| l@),
                seen ==> cs.subrange(0, i as int).contains(cs[i as int]),
                !seen ==> forall|k: int| 0 <= k < j ==> cs[k] != cs[i as int],
            decreases i - j,
        {
            if chars_eq(&cands[j], &cands[i]) {
                proof {
                    assert(cs.subrange(0, i as int)[j as int] == cs[i as int]);
                }
                seen = true;
            }
            j = j + 1;
        }
        proof {
            if !seen {
                let ghost x = cs[i as int];
                assert forall|k: int| 0 <= k < i implies cs.subrange(0, i as int)[k] != x by {
                    assert(cs.subrange(0, i as int)[k] == cs[k]);
                }
                assert(!cs.subrange(0, i as int).contains(cs[i as int]));
            }
            assert(seen == cs.subrange(0, i as int).contains(cs[i as int]));
        }
        if !seen {
            let ghost r0 = r@.map_values(|s: String| s@);
            let name = chars_to_string(&cands[i]);
            r.push(name);
            proof {
                assert(r@.map_values(|s: String| s@) =~= r0.push(cs[i as int]));
                assert(r0.push(cs[i as int]) + dedup_rec(cs, i + 1) =~= r0 + (seq![cs[i as int]]
                    + dedup_rec(cs, i + 1)));
            }
        }
        i = i + 1;
    }
    proof {
        assert(dedup_rec(cs, cs.len() as int) =~= Seq::<Seq<char>>::empty());
        assert(r@.map_values(|s: String| s@) + Seq::<Seq<char>>::empty() =~= r@.map_values(
            |s: String| s@,
        ));
    }
    r
}

} // verus!
