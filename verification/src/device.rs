//! Selection of the caliper among the peripherals a scan reported.
//!
//! A scan hands the library the advertised name of each peripheral (an
//! unnamed peripheral is reported as the empty string); the library picks
//! the first whose name contains the model designation `SY289`.

use vstd::prelude::*;

verus! {

/// Holds when `needle` occurs in `hay` starting at position `i`.
pub open spec fn is_match_at(hay: Seq<char>, needle: Seq<char>, i: int) -> bool {
    0 <= i && i + needle.len() <= hay.len() && hay.subrange(i, i + needle.len() as int)
        == needle
}

/// Holds when `needle` occurs somewhere in `hay`.
pub open spec fn contains_seq(hay: Seq<char>, needle: Seq<char>) -> bool {
    exists|i: int| is_match_at(hay, needle, i)
}

/// The model designation looked for in a peripheral name.
pub open spec fn model_name() -> Seq<char> {
    "SY289"@
}

/// Whether `needle` occurs in `hay` starting exactly at `i`.
fn matches_at(hay: &str, needle: &str, i: usize) -> (r: bool)
    requires
        i + needle@.len() <= hay@.len(),
        hay@.len() <= usize::MAX,
    ensures
        r == is_match_at(hay@, needle@, i as int),
{
    let n = needle.unicode_len();
    let mut j: usize = 0;
    while j < n
        invariant
            n == needle@.len(),
            i + n <= hay@.len(),
            hay@.len() <= usize::MAX,
            0 <= j <= n,
            forall|k: int| 0 <= k < j ==> hay@[i + k] == needle@[k],
        decreases n - j,
    {
        if hay.get_char(i + j) != needle.get_char(j) {
            assert(hay@.subrange(i as int, i + n as int)[j as int] != needle@[j as int]);
            return false;
        }
        j += 1;
    }
    proof {
        assert(hay@.subrange(i as int, i + n as int) =~= needle@);
    }
    true
}

/// Whether the name `hay` contains `needle`.
pub fn str_contains(hay: &str, needle: &str) -> (r: bool)
    ensures
        r == contains_seq(hay@, needle@),
{
    let hl = hay.unicode_len();
    let nl = needle.unicode_len();
    if nl > hl {
        proof {
            assert(forall|i: int| !is_match_at(hay@, needle@, i));
        }
        return false;
    }
    if nl == 0 {
        proof {
            assert(hay@.subrange(0, 0) =~= needle@);
            assert(is_match_at(hay@, needle@, 0));
        }
        return true;
    }
    let mut i: usize = 0;
    while i <= hl - nl
        invariant
            hl == hay@.len(),
            nl == needle@.len(),
            1 <= nl <= hl,
            0 <= i <= hl - nl + 1,
            forall|k: int| 0 <= k < i ==> !is_match_at(hay@, needle@, k),
        decreases hl - nl + 1 - i,
    {
        if matches_at(hay, needle, i) {
            return true;
        }
        i += 1;
    }
    proof {
        assert(forall|k: int| is_match_at(hay@, needle@, k) ==> 0 <= k <= hl - nl);
    }
    false
}

/// The index of the first name that contains the model designation, if any
/// does.
pub fn find_device(names: &Vec<String>) -> (r: Option<usize>)
    ensures
        match r {
            Some(i) => i < names@.len() && contains_seq(names@[i as int]@, model_name())
                && forall|j: int| 0 <= j < i ==> !contains_seq(names@[j]@, model_name()),
            None => forall|j: int| 0 <= j < names@.len() ==> !contains_seq(names@[j]@, model_name()),
        },
{
    let n = names.len();
    let mut i: usize = 0;
    while i < n
        invariant
            n == names@.len(),
            0 <= i <= n,
            forall|j: int| 0 <= j < i ==> !contains_seq(names@[j]@, model_name()),
        decreases n - i,
    {
        if str_contains(names[i].as_str(), "SY289") {
            return Some(i);
        }
        i += 1;
    }
    None
}

/// The outcome of a scan: the index of the caliper, or the failure message
/// shown when no peripheral name contains the model designation.
pub fn scan_outcome(names: &Vec<String>) -> (r: Result<usize, String>)
    ensures
        match r {
            Ok(i) => i < names@.len() && contains_seq(names@[i as int]@, model_name())
                && forall|j: int| 0 <= j < i ==> !contains_seq(names@[j]@, model_name()),
            Err(m) => m@ == "Dispositivo no encontrado"@ && forall|j: int|
                0 <= j < names@.len() ==> !contains_seq(names@[j]@, model_name()),
        },
{
    match find_device(names) {
        Some(i) => Ok(i),
        None => Err("Dispositivo no encontrado".to_owned()),
    }
}

} // verus!
