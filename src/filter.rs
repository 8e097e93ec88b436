use vstd::prelude::*;
use vstd::string::StringExecFns;

verus! {

/// A per-entry directive that controls whether the entry takes part in syncing.
#[derive(Clone, Copy, Debug, PartialEq, Eq, Structural)]
pub enum Filter {
    Exclude,
    Include,
}

/// The run-wide policy folded from the markers of every entry.
#[derive(Clone, Copy, Debug, PartialEq, Eq, Structural)]
pub enum FilterMode {
    NoFilter,
    IncludeOnly,
    ExcludeOnly,
    Conflicting,
}

pub open spec fn include_text() -> Seq<char> {
    seq!['i', 'n', 'c', 'l', 'u', 'd', 'e']
}

pub open spec fn exclude_text() -> Seq<char> {
    seq!['e', 'x', 'c', 'l', 'u', 'd', 'e']
}

/// The marker that a property value names, if it names one.
pub open spec fn filter_of_text(s: Seq<char>) -> Option<Filter> {
    if s == exclude_text() {
        Some(Filter::Exclude)
    } else if s == include_text() {
        Some(Filter::Include)
    } else {
        None
    }
}

/// Whether any marker in `fs` equals `f`.
pub open spec fn has_marker(fs: Seq<Option<Filter>>, f: Filter) -> bool {
    exists|i: int| 0 <= i < fs.len() && fs[i] == Some(f)
}

/// The mode that a sequence of markers folds to.
pub open spec fn mode_of(fs: Seq<Option<Filter>>) -> FilterMode {
    let inc = has_marker(fs, Filter::Include);
    let exc = has_marker(fs, Filter::Exclude);
    if inc && exc {
        FilterMode::Conflicting
    } else if inc {
        FilterMode::IncludeOnly
    } else if exc {
        FilterMode::ExcludeOnly
    } else {
        FilterMode::NoFilter
    }
}

/// Whether an entry with marker `f` takes part in uploads under `mode`.
pub open spec fn eligible(mode: FilterMode, f: Option<Filter>) -> bool {
    match mode {
        FilterMode::NoFilter => true,
        FilterMode::IncludeOnly => f == Some(Filter::Include),
        FilterMode::ExcludeOnly => f != Some(Filter::Exclude),
        FilterMode::Conflicting => false,
    }
}

proof fn lemma_has_marker_push(fs: Seq<Option<Filter>>, x: Option<Filter>, f: Filter)
    ensures
        has_marker(fs.push(x), f) == (has_marker(fs, f) || x == Some(f)),
{
    let p = fs.push(x);
    if has_marker(fs, f) {
        let k = choose|k: int| 0 <= k < fs.len() && fs[k] == Some(f);
        assert(p[k] == Some(f));
    }
    if x == Some(f) {
        assert(p[fs.len() as int] == Some(f));
    }
    if has_marker(p, f) && x != Some(f) {
        let k = choose|k: int| 0 <= k < p.len() && p[k] == Some(f);
        assert(fs[k] == Some(f));
    }
}

impl Filter {
    /// Reads a marker from its property value: exactly `exclude` or `include`.
    pub fn try_from(value: &str) -> (r: Result<Filter, ()>)
        ensures
            r is Ok <==> filter_of_text(value@) is Some,
            r matches Ok(f) ==> filter_of_text(value@) == Some(f),
    {
        let v = String::from_str(value);
        let exc_text = String::from_str("exclude");
        let inc_text = String::from_str("include");
        proof {
            reveal_strlit("exclude");
            reveal_strlit("include");
            assert(exc_text@ =~= exclude_text());
            assert(inc_text@ =~= include_text());
        }
        if v == exc_text {
            Ok(Filter::Exclude)
        } else if v == inc_text {
            Ok(Filter::Include)
        } else {
            Err(())
        }
    }
}

impl FilterMode {
    /// Folds the markers of all entries into one mode.
    pub fn from_markers(fs: &Vec<Option<Filter>>) -> (r: FilterMode)
        ensures
            r == mode_of(fs@),
    {
        let mut inc = false;
        let mut exc = false;
        let mut i: usize = 0;
        while i < fs.len()
            invariant
                i <= fs@.len(),
                inc == has_marker(fs@.subrange(0, i as int), Filter::Include),
                exc == has_marker(fs@.subrange(0, i as int), Filter::Exclude),
            decreases fs@.len() - i,
        {
            proof {
                let p = fs@.subrange(0, i as int);
                assert(fs@.subrange(0, i + 1) == p.push(fs@[i as int]));
                lemma_has_marker_push(p, fs@[i as int], Filter::Include);
                lemma_has_marker_push(p, fs@[i as int], Filter::Exclude);
            }
            match fs[i] {
                Some(Filter::Include) => {
                    inc = true;
                },
                Some(Filter::Exclude) => {
                    exc = true;
                },
                None => {},
            }
            i = i + 1;
        }
        assert(fs@.subrange(0, i as int) == fs@);
        if inc && exc {
            FilterMode::Conflicting
        } else if inc {
            FilterMode::IncludeOnly
        } else if exc {
            FilterMode::ExcludeOnly
        } else {
            FilterMode::NoFilter
        }
    }

    /// Whether an entry with marker `f` takes part in uploads under this mode.
    pub fn is_eligible(&self, f: Option<Filter>) -> (r: bool)
        ensures
            r == eligible(*self, f),
    {
        match self {
            FilterMode::NoFilter => true,
            FilterMode::IncludeOnly => f == Some(Filter::Include),
            FilterMode::ExcludeOnly => f != Some(Filter::Exclude),
            FilterMode::Conflicting => false,
        }
    }
}

} // verus!
