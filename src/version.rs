use vstd::prelude::*;

use crate::text::{chars_of, find_chars, find_first, slice_chars, string_of};

verus! {

/// Reads the target application's version.
pub struct CursorVersion;

pub open spec fn is_version_char(c: char) -> bool {
    ('0' <= c && c <= '9') || c == '.'
}

/// The end of the run of digits and dots that starts at `i`.
pub open spec fn run_end(s: Seq<char>, i: int) -> int
    decreases s.len() - i,
{
    if i < 0 || i >= s.len() {
        s.len() as int
    } else if !is_version_char(s[i]) {
        i
    } else {
        run_end(s, i + 1)
    }
}

/// The non-empty run of digits and dots right after the first `pat` in `notes`.
pub open spec fn version_after(notes: Seq<char>, pat: Seq<char>) -> Option<Seq<char>> {
    match find_first(notes, pat) {
        Some(p) => {
            let start = p + pat.len();
            let end = run_end(notes, start);
            if start < end {
                Some(notes.subrange(start, end))
            } else {
                None
            }
        },
        None => None,
    }
}

/// The version named in release notes: after `Cursor v`, else after `Version `, else after `v`.
pub open spec fn version_in_notes(notes: Seq<char>) -> Option<Seq<char>> {
    match version_after(notes, "Cursor v"@) {
        Some(v) => Some(v),
        None => match version_after(notes, "Version "@) {
            Some(v) => Some(v),
            None => version_after(notes, "v"@),
        },
    }
}

fn run_end_from(s: &Vec<char>, start: usize) -> (r: usize)
    requires
        start <= s.len(),
    ensures
        r as int == run_end(s@, start as int),
        start <= r <= s.len(),
{
    let mut i = start;
    while i < s.len() && ((s[i] >= '0' && s[i] <= '9') || s[i] == '.')
        invariant
            start <= i <= s.len(),
            run_end(s@, start as int) == run_end(s@, i as int),
        decreases s.len() - i,
    {
        i = i + 1;
    }
    i
}

fn version_after_exec(notes: &Vec<char>, pat: &str) -> (r: Option<String>)
    ensures
        crate::process::opt_view(r) == version_after(notes@, pat@),
{
    let p = chars_of(pat);
    match find_chars(notes, &p) {
        Some(pos) => {
            let total = notes.len();
            assert(crate::text::occurs_at(notes@, p@, pos as int));
            let start = pos + p.len();
            let end = run_end_from(notes, start);
            if start < end {
                Some(string_of(&slice_chars(notes, start, end)))
            } else {
                None
            }
        },
        None => None,
    }
}

impl CursorVersion {
    /// The version named in release notes, if any.
    pub fn extract_version_from_notes(notes: &str) -> (r: Option<String>)
        ensures
            crate::process::opt_view(r) == version_in_notes(notes@),
    {
        let n = chars_of(notes);
        if let Some(v) = version_after_exec(&n, "Cursor v") {
            return Some(v);
        }
        if let Some(v) = version_after_exec(&n, "Version ") {
            return Some(v);
        }
        version_after_exec(&n, "v")
    }

    /// The version from the target's stored values: its last recorded version, else the one
    /// its release notes name, else `Unknown`.
    pub fn get_version(last_version: Option<String>, release_notes: Option<&str>) -> (r: String)
        ensures
            last_version matches Some(v) ==> r@ == v@,
            last_version is None ==> r@ == match release_notes {
                Some(n) => match version_in_notes(n@) {
                    Some(v) => v,
                    None => "Unknown"@,
                },
                None => "Unknown"@,
            },
    {
        if let Some(v) = last_version {
            return v;
        }
        match release_notes {
            Some(n) => match Self::extract_version_from_notes(n) {
                Some(v) => v,
                None => String::from_str("Unknown"),
            },
            None => String::from_str("Unknown"),
        }
    }
}

} // verus!
