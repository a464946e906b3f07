use vstd::prelude::*;

verus! {

/// What compiling a glob pattern and matching it against a text yields:
/// `None` for a pattern the matcher refuses, `Some(b)` for a verdict.
/// The outcome depends on the two character sequences alone.
pub uninterp spec fn glob_eval(pattern: Seq<char>, text: Seq<char>) -> Option<bool>;

/// Relies on `wildcard::Wildcard::new` and `wildcard::Wildcard::is_match`
/// (default configuration): compiling a pattern and matching an input are
/// deterministic in the pattern and input bytes alone. `None` stands for a
/// pattern that `Wildcard::new` refuses.
#[verifier::external_body]
fn glob_is_match(pattern: &str, text: &str) -> (r: Option<bool>)
    ensures
        r == glob_eval(pattern@, text@),
{
    match wildcard::Wildcard::new(pattern.as_bytes()) {
        Ok(w) => Some(w.is_match(text.as_bytes())),
        Err(_) => None,
    }
}

/// A pattern matches a name only when it compiles and its verdict is
/// positive: a malformed pattern matches nothing.
pub open spec fn pattern_matches(pattern: Seq<char>, text: Seq<char>) -> bool {
    glob_eval(pattern, text) == Some(true)
}

/// The accept clause passes vacuously when no accept pattern is given,
/// otherwise some accept pattern must match.
pub open spec fn accept_passes(accept: Seq<String>, name: Seq<char>) -> bool {
    accept.len() == 0 || exists|i: int|
        0 <= i < accept.len() && #[trigger] pattern_matches(accept[i]@, name)
}

/// The exclude clause passes when no exclude pattern matches.
pub open spec fn exclude_passes(exclude: Seq<String>, name: Seq<char>) -> bool {
    forall|i: int| 0 <= i < exclude.len() ==> !(#[trigger] pattern_matches(exclude[i]@, name))
}

/// An accept/exclude/size-range policy over feed item names and sizes.
pub struct Filters {
    pub accept: Vec<String>,
    pub exclude: Vec<String>,
    pub min_size: u32,
    pub max_size: u32,
}

/// An item satisfies a policy only when all four clauses hold: some accept
/// pattern matches (or none is given), no exclude pattern matches, and the
/// size lies within the inclusive bounds.
pub open spec fn filter_matches(f: Filters, name: Seq<char>, size: u32) -> bool {
    &&& accept_passes(f.accept@, name)
    &&& exclude_passes(f.exclude@, name)
    &&& f.min_size <= size
    &&& size <= f.max_size
}

impl Filters {
    pub fn new(accept: Vec<String>, exclude: Vec<String>, min_size: u32, max_size: u32) -> (r:
        Filters)
        ensures
            r.accept == accept,
            r.exclude == exclude,
            r.min_size == min_size,
            r.max_size == max_size,
    {
        Filters { accept, exclude, min_size, max_size }
    }

    /// Decides whether one feed item, by name and size, satisfies the policy.
    pub fn is_match(&self, item: &str, size: u32) -> (r: bool)
        ensures
            r == filter_matches(*self, item@, size),
    {
        let mut any_acc = false;
        let mut i: usize = 0;
        while i < self.accept.len()
            invariant
                0 <= i <= self.accept.len(),
                any_acc == exists|k: int|
                    0 <= k < i && #[trigger] pattern_matches(self.accept[k]@, item@),
            decreases self.accept.len() - i,
        {
            let verdict = glob_is_match(self.accept[i].as_str(), item);
            let hit = match verdict {
                Some(true) => true,
                _ => false,
            };
            if hit {
                assert(pattern_matches(self.accept[i as int]@, item@));
                any_acc = true;
            } else {
                assert(!pattern_matches(self.accept[i as int]@, item@));
            }
            i = i + 1;
        }

        let mut any_exc = false;
        let mut j: usize = 0;
        while j < self.exclude.len()
            invariant
                0 <= j <= self.exclude.len(),
                any_exc == exists|k: int|
                    0 <= k < j && #[trigger] pattern_matches(self.exclude[k]@, item@),
            decreases self.exclude.len() - j,
        {
            let verdict = glob_is_match(self.exclude[j].as_str(), item);
            let hit = match verdict {
                Some(true) => true,
                _ => false,
            };
            if hit {
                assert(pattern_matches(self.exclude[j as int]@, item@));
                any_exc = true;
            } else {
                assert(!pattern_matches(self.exclude[j as int]@, item@));
            }
            j = j + 1;
        }

        (self.accept.len() == 0 || any_acc) && !any_exc && self.min_size <= size && size
            <= self.max_size
    }
}

} // verus!
