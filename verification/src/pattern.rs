//! Resource definitions: a path pattern, an optional name, and the test
//! whether a request path fits the pattern.

use vstd::prelude::*;

verus! {

/// The index of the first slash of `path` at or after `from`, or the length
/// of `path` where there is none: the end of the segment that holds `from`.
pub open spec fn segment_end(path: Seq<char>, from: int) -> int
    decreases path.len() - from,
{
    if from < 0 || from >= path.len() || path[from] == '/' {
        from
    } else {
        segment_end(path, from + 1)
    }
}

/// The index just past the first `}` of `pattern` at or after `from`, or the
/// length of `pattern` where there is none: the end of the placeholder that
/// holds `from`.
pub open spec fn placeholder_end(pattern: Seq<char>, from: int) -> int
    decreases pattern.len() - from,
{
    if from < 0 || from >= pattern.len() {
        from
    } else if pattern[from] == '}' {
        from + 1
    } else {
        placeholder_end(pattern, from + 1)
    }
}

/// A placeholder ends at or after the place it is looked for from, and
/// within the pattern.
pub proof fn lemma_placeholder_end(pattern: Seq<char>, from: int)
    requires
        0 <= from <= pattern.len(),
    ensures
        from <= placeholder_end(pattern, from) <= pattern.len(),
    decreases pattern.len() - from,
{
    if from < pattern.len() && pattern[from] != '}' {
        lemma_placeholder_end(pattern, from + 1);
    }
}

/// Whether `path` from index `j` on fits `pattern` from index `i` on. A
/// character of the pattern stands for itself; a placeholder, written from
/// `{` to the next `}`, stands for the rest of the path's segment, which
/// must not be empty.
pub open spec fn matches_from(pattern: Seq<char>, i: int, path: Seq<char>, j: int) -> bool
    decreases pattern.len() - i,
{
    if i < 0 || j < 0 || i > pattern.len() || j > path.len() {
        false
    } else if i == pattern.len() {
        j == path.len()
    } else if pattern[i] == '{' {
        let end = segment_end(path, j);
        end > j && {
            proof {
                lemma_placeholder_end(pattern, i + 1);
            }
            matches_from(pattern, placeholder_end(pattern, i + 1), path, end)
        }
    } else {
        j < path.len() && path[j] == pattern[i] && matches_from(pattern, i + 1, path, j + 1)
    }
}

/// Whether the whole of `path` fits the whole of `pattern`.
pub open spec fn pattern_matches(pattern: Seq<char>, path: Seq<char>) -> bool {
    matches_from(pattern, 0, path, 0)
}

/// The characters of `text`, in order.
pub fn chars_of(text: &str) -> (chars: Vec<char>)
    ensures
        chars@ == text@,
{
    let mut chars: Vec<char> = Vec::new();
    for c in it: text.chars()
        invariant
            chars@ == it.seq().take(it.index() as int),
            it.seq() == text@,
    {
        chars.push(c);
    }
    chars
}

/// What a resource definition is, as plain values.
pub struct ResourceDefView {
    pub pattern: Seq<char>,
    pub name: Seq<char>,
}

/// A path pattern with a name. The empty name stands for no name.
pub struct ResourceDef {
    pattern: String,
    name: String,
}

impl View for ResourceDef {
    type V = ResourceDefView;

    closed spec fn view(&self) -> ResourceDefView {
        ResourceDefView { pattern: self.pattern@, name: self.name@ }
    }
}

impl ResourceDef {
    /// A definition for `pattern`, without a name.
    pub fn new(pattern: &str) -> (rdef: ResourceDef)
        ensures
            rdef@ == (ResourceDefView { pattern: pattern@, name: Seq::empty() }),
    {
        ResourceDef { pattern: pattern.to_owned(), name: String::new() }
    }

    /// The pattern.
    pub fn pattern(&self) -> (pattern: &str)
        ensures
            pattern@ == self@.pattern,
    {
        self.pattern.as_str()
    }

    /// The name.
    pub fn name(&self) -> (name: &str)
        ensures
            name@ == self@.name,
    {
        self.name.as_str()
    }

    /// Names the definition.
    pub fn set_name(&mut self, name: &str)
        ensures
            final(self)@ == (ResourceDefView { name: name@, ..old(self)@ }),
    {
        self.name = name.to_owned();
    }

    /// Whether `path` fits the pattern.
    pub fn is_match(&self, path: &str) -> (fits: bool)
        ensures
            fits == pattern_matches(self@.pattern, path@),
    {
        let pat: Vec<char> = chars_of(self.pattern.as_str());
        let text: Vec<char> = chars_of(path);
        let mut i: usize = 0;
        let mut j: usize = 0;
        while i < pat.len()
            invariant
                i <= pat.len(),
                j <= text.len(),
                pat@ == self@.pattern,
                text@ == path@,
                pattern_matches(pat@, text@) == matches_from(pat@, i as int, text@, j as int),
            decreases pat.len() - i,
        {
            if pat[i] == '{' {
                let mut end: usize = j;
                while end < text.len() && text[end] != '/'
                    invariant
                        j <= end <= text.len(),
                        segment_end(text@, j as int) == segment_end(text@, end as int),
                    decreases text.len() - end,
                {
                    end = end + 1;
                }
                if end == j {
                    return false;
                }
                let mut next: usize = i + 1;
                while next < pat.len() && pat[next] != '}'
                    invariant
                        i < next <= pat.len(),
                        placeholder_end(pat@, i + 1) == placeholder_end(pat@, next as int),
                    decreases pat.len() - next,
                {
                    next = next + 1;
                }
                if next < pat.len() {
                    next = next + 1;
                }
                i = next;
                j = end;
            } else {
                if j >= text.len() || text[j] != pat[i] {
                    return false;
                }
                i = i + 1;
                j = j + 1;
            }
        }
        j == text.len()
    }
}

} // verus!
