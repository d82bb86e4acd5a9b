//! Identifiers: kebab-case names made of `-`-separated parts.
use vstd::prelude::*;
use vstd::string::*;
use crate::error::Error;

verus! {

pub open spec fn is_lower(c: char) -> bool {
    'a' <= c && c <= 'z'
}

pub open spec fn is_upper(c: char) -> bool {
    'A' <= c && c <= 'Z'
}

pub open spec fn is_digit(c: char) -> bool {
    '0' <= c && c <= '9'
}

/// No `-` lies between positions `i` and `j` of `s`, both included.
pub open spec fn same_part(s: Seq<char>, i: int, j: int) -> bool {
    forall|k: int| i <= k <= j ==> s[k] != '-'
}

/// A legal identifier: non-empty parts separated by single `-`, the first
/// starting with a letter, every part made of ASCII letters and digits and
/// not mixing lower and upper case.
pub open spec fn valid_id(s: Seq<char>) -> bool {
    &&& s.len() > 0
    &&& (is_lower(s[0]) || is_upper(s[0]))
    &&& s.last() != '-'
    &&& forall|i: int| 0 <= i < s.len() ==> is_lower(#[trigger] s[i]) || is_upper(s[i]) || is_digit(s[i]) || s[i] == '-'
    &&& forall|i: int| 0 < i < s.len() && #[trigger] s[i] == '-' ==> s[i - 1] != '-'
    &&& forall|i: int, j: int|
        0 <= i < j < s.len() && same_part(s, i, j) ==> !(is_lower(#[trigger] s[i]) && is_upper(#[trigger] s[j])) && !(
        is_upper(s[i]) && is_lower(s[j]))
}

/// No two positions before `end` in one part mix lower and upper case.
pub open spec fn unmixed_upto(s: Seq<char>, end: int) -> bool {
    forall|i: int, j: int|
        0 <= i < j < end && same_part(s, i, j) ==> !(is_lower(#[trigger] s[i]) && is_upper(#[trigger] s[j])) && !(
        is_upper(s[i]) && is_lower(s[j]))
}

proof fn lemma_unmixed_dash(s: Seq<char>, end: int)
    requires
        0 <= end < s.len(),
        s[end] == '-',
        unmixed_upto(s, end),
    ensures
        unmixed_upto(s, end + 1),
{
    assert forall|i: int, j: int|
        0 <= i < j < end + 1 && same_part(s, i, j) implies !(is_lower(#[trigger] s[i]) && is_upper(#[trigger] s[j])) && !(
        is_upper(s[i]) && is_lower(s[j])) by {
        if j == end {
            assert(s[j] == '-');
        }
    }
}

proof fn lemma_unmixed_letter(s: Seq<char>, end: int, start: int)
    requires
        0 <= start <= end < s.len(),
        s[end] != '-',
        start > 0 ==> s[start - 1] == '-',
        unmixed_upto(s, end),
        forall|k: int| start <= k < end ==> !(is_lower(#[trigger] s[k]) && is_upper(s[end])),
        forall|k: int| start <= k < end ==> !(is_upper(#[trigger] s[k]) && is_lower(s[end])),
    ensures
        unmixed_upto(s, end + 1),
{
    assert forall|i: int, j: int|
        0 <= i < j < end + 1 && same_part(s, i, j) implies !(is_lower(#[trigger] s[i]) && is_upper(#[trigger] s[j])) && !(
        is_upper(s[i]) && is_lower(s[j])) by {
        if j == end && i < start {
            assert(s[start - 1] == '-');
        }
        if j == end && i >= start {
            assert(!(is_lower(s[i]) && is_upper(s[end])));
            assert(!(is_upper(s[i]) && is_lower(s[end])));
        }
    }
}

fn id_error(msg: &str) -> (r: Error) {
    Error::without_span(String::from_str(msg))
}

/// Checks that `s` is a legal identifier.
pub fn validate_id(s: &str) -> (r: Result<(), Error>)
    ensures
        r is Ok <==> valid_id(s@),
{
    let n = s.unicode_len();
    if n == 0 {
        return Err(id_error("empty identifier"));
    }
    let first = s.get_char(0);
    if !(('a' <= first && first <= 'z') || ('A' <= first && first <= 'Z')) {
        return Err(id_error("identifiers must start with a letter"));
    }
    if s.get_char(n - 1) == '-' {
        return Err(id_error("identifiers must have no empty parts"));
    }
    let mut i: usize = 0;
    while i < n
        invariant
            n == s@.len(),
            i <= n,
            forall|k: int| 0 <= k < i ==> is_lower(#[trigger] s@[k]) || is_upper(s@[k]) || is_digit(s@[k]) || s@[k] == '-',
            forall|k: int| 0 < k < i && #[trigger] s@[k] == '-' ==> s@[k - 1] != '-',
            is_lower(s@[0]) || is_upper(s@[0]),
        decreases n - i,
    {
        let c = s.get_char(i);
        if !(('a' <= c && c <= 'z') || ('A' <= c && c <= 'Z') || ('0' <= c && c <= '9') || c == '-') {
            return Err(id_error("identifiers may only hold ASCII letters, digits and `-`"));
        }
        if c == '-' && i > 0 && s.get_char(i - 1) == '-' {
            return Err(id_error("identifiers must have no empty parts"));
        }
        i = i + 1;
    }
    let mut part_start: usize = 0;
    let mut lower = false;
    let mut upper = false;
    i = 0;
    while i < n
        invariant
            n == s@.len(),
            part_start <= i <= n,
            part_start > 0 ==> s@[part_start - 1] == '-',
            forall|k: int| part_start <= k < i ==> s@[k] != '-',
            lower ==> exists|k: int| part_start <= k < i && is_lower(#[trigger] s@[k]),
            !lower ==> forall|k: int| part_start <= k < i ==> !is_lower(#[trigger] s@[k]),
            upper ==> exists|k: int| part_start <= k < i && is_upper(#[trigger] s@[k]),
            !upper ==> forall|k: int| part_start <= k < i ==> !is_upper(#[trigger] s@[k]),
            unmixed_upto(s@, i as int),
        decreases n - i,
    {
        let c = s.get_char(i);
        if c == '-' {
            proof {
                lemma_unmixed_dash(s@, i as int);
            }
            part_start = i + 1;
            lower = false;
            upper = false;
        } else {
            let is_l = 'a' <= c && c <= 'z';
            let is_u = 'A' <= c && c <= 'Z';
            if (is_l && upper) || (is_u && lower) {
                proof {
                    if is_l {
                        let k = choose|k: int| part_start <= k < i && is_upper(#[trigger] s@[k]);
                        assert(same_part(s@, k, i as int));
                        assert(is_upper(s@[k]) && is_lower(s@[i as int]));
                    } else {
                        let k = choose|k: int| part_start <= k < i && is_lower(#[trigger] s@[k]);
                        assert(same_part(s@, k, i as int));
                        assert(is_lower(s@[k]) && is_upper(s@[i as int]));
                    }
                }
                return Err(id_error("identifier parts must be all lower case or all upper case"));
            }
            proof {
                lemma_unmixed_letter(s@, i as int, part_start as int);
            }
            if is_l {
                lower = true;
            }
            if is_u {
                upper = true;
            }
        }
        i = i + 1;
    }
    Ok(())
}

} // verus!
