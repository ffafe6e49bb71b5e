//! Path patterns: merging slash runs and toggling the trailing slash.

use regex::Regex;
use vstd::prelude::*;

verus! {

/// The text `s` with every maximal run of `/` replaced by a single `/`.
pub open spec fn collapse_slashes(s: Seq<char>) -> Seq<char>
    decreases s.len(),
{
    if s.len() == 0 {
        s
    } else if s.len() >= 2 && s[0] == '/' && s[1] == '/' {
        collapse_slashes(s.drop_first())
    } else {
        seq![s[0]] + collapse_slashes(s.drop_first())
    }
}

/// Whether two slashes stand next to each other somewhere in `s`.
pub open spec fn has_slash_run(s: Seq<char>) -> bool {
    exists|i: int, j: int|
        0 <= i && j == i + 1 && j < s.len() && #[trigger] s[i] == '/' && #[trigger] s[j] == '/'
}

/// Whether `s` ends with a slash.
pub open spec fn ends_with_slash(s: Seq<char>) -> bool {
    s.len() > 0 && s.last() == '/'
}

/// `s` without its last character if that is a slash, else `s` with a
/// slash appended.
pub open spec fn toggle_trailing_slash(s: Seq<char>) -> Seq<char> {
    if ends_with_slash(s) {
        s.drop_last()
    } else {
        s.push('/')
    }
}

/// The pattern under which a resource is published first: `p` with its
/// slash runs merged.
pub open spec fn primary_pattern(p: Seq<char>) -> Seq<char> {
    collapse_slashes(p)
}

/// The sibling pattern: the primary pattern with its trailing slash toggled.
/// The sibling of `/` is the empty pattern, which is a pattern like any
/// other: it fits the empty path and nothing else.
pub open spec fn secondary_pattern(p: Seq<char>) -> Seq<char> {
    toggle_trailing_slash(collapse_slashes(p))
}

/// The regular expression for a run of two or more slashes.
pub open spec fn slash_run_pattern() -> Seq<char> {
    seq!['/', '/', '+']
}

/// Compiles `pattern` with `regex::Regex::new` and rewrites `haystack` with
/// `regex::Regex::replace_all`.
///
/// Trusted, and only for the one expression this crate uses: `//+` is a
/// valid expression whose matches, found leftmost first and without
/// overlap, are exactly the maximal runs of two or more slashes, and the
/// replacement `/` holds no `$`, so it is inserted literally for each match.
#[verifier::external_body]
fn replace_all(pattern: &str, haystack: &str, replacement: &str) -> (out: String)
    requires
        pattern@ == slash_run_pattern(),
        replacement@ == seq!['/'],
    ensures
        out@ == collapse_slashes(haystack@),
{
    Regex::new(pattern).unwrap().replace_all(haystack, replacement).into_owned()
}

/// Merges every run of slashes in `path` into one slash.
pub fn merge_slashes(path: &str) -> (cleaned: String)
    ensures
        cleaned@ == collapse_slashes(path@),
{
    proof {
        reveal_strlit("//+");
        reveal_strlit("/");
        assert("//+"@ =~= slash_run_pattern());
        assert("/"@ =~= seq!['/']);
    }
    replace_all("//+", path, "/")
}

/// Removes the trailing slash of `cleaned`, or appends one if there is none.
pub fn toggle_slash(cleaned: &str) -> (sibling: String)
    ensures
        sibling@ == toggle_trailing_slash(cleaned@),
{
    let n: usize = cleaned.unicode_len();
    if n > 0 && cleaned.get_char(n - 1) == '/' {
        let head: &str = cleaned.substring_char(0, n - 1);
        proof {
            assert(head@ =~= cleaned@.drop_last());
        }
        head.to_owned()
    } else {
        let mut sibling: String = cleaned.to_owned();
        proof {
            reveal_strlit("/");
            assert("/"@ =~= seq!['/']);
        }
        sibling.append("/");
        proof {
            assert(sibling@ =~= cleaned@.push('/'));
        }
        sibling
    }
}

/// Merging keeps the first character.
pub proof fn lemma_collapse_keeps_first(s: Seq<char>)
    requires
        s.len() > 0,
    ensures
        collapse_slashes(s).len() > 0,
        collapse_slashes(s)[0] == s[0],
    decreases s.len(),
{
    if s.len() >= 2 && s[0] == '/' && s[1] == '/' {
        lemma_collapse_keeps_first(s.drop_first());
    }
}

/// Merging keeps the last character.
pub proof fn lemma_collapse_keeps_last(s: Seq<char>)
    requires
        s.len() > 0,
    ensures
        collapse_slashes(s).len() > 0,
        collapse_slashes(s).last() == s.last(),
    decreases s.len(),
{
    let rest = s.drop_first();
    if s.len() >= 2 {
        lemma_collapse_keeps_last(rest);
        assert(rest.last() == s.last());
        if !(s[0] == '/' && s[1] == '/') {
            let tail = collapse_slashes(rest);
            assert((seq![s[0]] + tail).last() == tail.last());
        }
    } else {
        assert(collapse_slashes(rest) =~= Seq::<char>::empty());
        assert(seq![s[0]] + Seq::<char>::empty() =~= seq![s[0]]);
    }
}

/// A merged path holds no two slashes in a row.
pub proof fn lemma_collapse_has_no_run(s: Seq<char>)
    ensures
        !has_slash_run(collapse_slashes(s)),
    decreases s.len(),
{
    if s.len() > 0 {
        let rest = s.drop_first();
        let tail = collapse_slashes(rest);
        lemma_collapse_has_no_run(rest);
        if !(s.len() >= 2 && s[0] == '/' && s[1] == '/') {
            let c = seq![s[0]] + tail;
            if rest.len() > 0 {
                lemma_collapse_keeps_first(rest);
            }
            assert forall|i: int, j: int|
                0 <= i && j == i + 1 && j < c.len() implies !(#[trigger] c[i] == '/'
                && #[trigger] c[j] == '/') by {
                if i > 0 {
                    assert(c[i] == tail[i - 1]);
                    assert(c[j] == tail[j - 1]);
                }
            }
        }
    }
}

/// Merging leaves a path without slash runs as it is.
pub proof fn lemma_collapse_fixes_clean(s: Seq<char>)
    requires
        !has_slash_run(s),
    ensures
        collapse_slashes(s) == s,
    decreases s.len(),
{
    if s.len() > 0 {
        let rest = s.drop_first();
        assert forall|i: int, j: int|
            0 <= i && j == i + 1 && j < rest.len() implies !(#[trigger] rest[i] == '/'
            && #[trigger] rest[j] == '/') by {
            assert(rest[i] == s[i + 1]);
            assert(rest[j] == s[j + 1]);
        }
        lemma_collapse_fixes_clean(rest);
        if s.len() >= 2 {
            assert(!(s[0] == '/' && s[1] == '/'));
        }
        assert(seq![s[0]] + rest =~= s);
    }
}

/// Merging twice is merging once.
pub proof fn lemma_collapse_idempotent(s: Seq<char>)
    ensures
        collapse_slashes(collapse_slashes(s)) == collapse_slashes(s),
{
    lemma_collapse_has_no_run(s);
    lemma_collapse_fixes_clean(collapse_slashes(s));
}

/// Toggling the trailing slash of a path without slash runs gives a path
/// without slash runs, and toggling again gives the path back.
pub proof fn lemma_toggle_involution(s: Seq<char>)
    requires
        !has_slash_run(s),
    ensures
        !has_slash_run(toggle_trailing_slash(s)),
        toggle_trailing_slash(toggle_trailing_slash(s)) == s,
{
    let t = toggle_trailing_slash(s);
    assert forall|i: int, j: int| 0 <= i && j == i + 1 && j < t.len() implies !(#[trigger] t[i]
        == '/' && #[trigger] t[j] == '/') by {
        if j < s.len() {
            assert(t[i] == s[i]);
            assert(t[j] == s[j]);
        }
    }
    if ends_with_slash(s) {
        if t.len() > 0 {
            let i = s.len() - 2;
            let j = s.len() - 1;
            assert(!(s[i] == '/' && s[j] == '/'));
            assert(t.last() == s[i]);
        }
        assert(t.push('/') =~= s);
    } else {
        assert(t.drop_last() =~= s);
    }
}

/// For a pattern that, once merged, ends with a slash, the sibling is the
/// merged pattern with exactly one trailing slash removed.
pub proof fn lemma_secondary_strips_slash(p: Seq<char>)
    requires
        ends_with_slash(collapse_slashes(p)),
    ensures
        secondary_pattern(p) == collapse_slashes(p).drop_last(),
        secondary_pattern(p).push('/') == collapse_slashes(p),
        !ends_with_slash(secondary_pattern(p)),
{
    lemma_collapse_has_no_run(p);
    lemma_toggle_involution(collapse_slashes(p));
}

/// For a pattern that does not end with a slash, the sibling is the merged
/// pattern with one slash appended.
pub proof fn lemma_secondary_appends_slash(p: Seq<char>)
    requires
        !ends_with_slash(p),
    ensures
        !ends_with_slash(primary_pattern(p)),
        secondary_pattern(p) == collapse_slashes(p).push('/'),
{
    if p.len() > 0 {
        lemma_collapse_keeps_last(p);
    }
}

/// Normalizing a pattern's sibling leads back to the merged pattern: merge
/// and toggle, applied twice, return the pattern as it was after the first
/// merge.
pub proof fn lemma_normalize_twice_restores(p: Seq<char>)
    ensures
        primary_pattern(secondary_pattern(p)) == secondary_pattern(p),
        secondary_pattern(secondary_pattern(p)) == primary_pattern(p),
{
    let c = collapse_slashes(p);
    lemma_collapse_has_no_run(p);
    lemma_toggle_involution(c);
    lemma_collapse_fixes_clean(toggle_trailing_slash(c));
}

} // verus!
