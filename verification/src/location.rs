//! Parsing of storage-location strings.
//!
//! A storage location has the shape `scheme://authority/path...`.  The
//! authority may carry user information (everything up to the last `@`) and
//! a port (everything from the first `:` after the user information); the
//! host is what remains.  The parser exposes the host, from which bucket
//! and region are later derived.

use vstd::prelude::*;
use crate::error::{ErrorCode, GvfsResult};

verus! {

/// The three-character scheme separator `://` stands at index `i` of `s`.
pub open spec fn sep_at(s: Seq<char>, i: int) -> bool {
    &&& 0 <= i
    &&& i + 3 <= s.len()
    &&& s[i] == ':'
    &&& s[i + 1] == '/'
    &&& s[i + 2] == '/'
}

/// Index of the first `://` at or after `from`, or `-1` if there is none.
pub open spec fn first_sep_from(s: Seq<char>, from: int) -> int
    decreases s.len() - from
        when 0 <= from <= s.len()
{
    if from + 3 > s.len() {
        -1
    } else if sep_at(s, from) {
        from
    } else {
        first_sep_from(s, from + 1)
    }
}

/// Index of the first occurrence of `c` at or after `from`, or `s.len()`
/// if there is none.
pub open spec fn first_ix_from(s: Seq<char>, c: char, from: int) -> int
    decreases s.len() - from
        when 0 <= from <= s.len()
{
    if from >= s.len() {
        s.len() as int
    } else if s[from] == c {
        from
    } else {
        first_ix_from(s, c, from + 1)
    }
}

/// Index of the last occurrence of `c` in `s`, or `-1` if there is none.
pub open spec fn last_ix(s: Seq<char>, c: char) -> int
    decreases s.len(),
{
    if s.len() == 0 {
        -1
    } else if s[s.len() - 1] == c {
        s.len() - 1
    } else {
        last_ix(s.drop_last(), c)
    }
}

/// A character admissible in a scheme: a letter first, then letters,
/// digits, `+`, `-` or `.`.
pub open spec fn spec_scheme_char(c: char, first: bool) -> bool {
    let u = c as u32;
    if first {
        (97 <= u <= 122) || (65 <= u <= 90)
    } else {
        (97 <= u <= 122) || (65 <= u <= 90) || (48 <= u <= 57) || c == '+' || c == '-' || c
            == '.'
    }
}

/// A non-empty sequence of scheme characters.
pub open spec fn valid_scheme(s: Seq<char>) -> bool {
    s.len() > 0 && (forall|i: int| 0 <= i < s.len() ==> spec_scheme_char(s[i], i == 0))
}

/// Index of the first `://` of the location, `-1` if there is none.
pub open spec fn spec_sep(s: Seq<char>) -> int {
    first_sep_from(s, 0)
}

/// The location parses as `scheme://...` with a well-formed scheme.
pub open spec fn parseable(s: Seq<char>) -> bool {
    spec_sep(s) >= 0 && valid_scheme(s.subrange(0, spec_sep(s)))
}

/// The authority: everything between `://` and the first following `/`
/// (or the end of the location).
pub open spec fn spec_authority(s: Seq<char>) -> Seq<char> {
    let a0 = spec_sep(s) + 3;
    s.subrange(a0, first_ix_from(s, '/', a0))
}

/// The host of an authority: user information (up to the last `@`) and
/// port (from the first `:` after it) are stripped.
pub open spec fn host_of_authority(a: Seq<char>) -> Seq<char> {
    let h = a.skip(last_ix(a, '@') + 1);
    h.take(first_ix_from(h, ':', 0))
}

/// The host of a location; the empty sequence stands for an absent host.
pub open spec fn spec_host(s: Seq<char>) -> Seq<char> {
    host_of_authority(spec_authority(s))
}

/// The location parses and carries a non-empty host.
pub open spec fn host_present(s: Seq<char>) -> bool {
    parseable(s) && spec_host(s).len() > 0
}

/// The message of the error a location that cannot be parsed is rejected
/// with; it names the location.
pub open spec fn parse_error_message(loc: Seq<char>) -> Seq<char> {
    "Invalid fileset location: "@ + loc
}

/// The host splits on `.` into at least two segments.
pub open spec fn has_region(h: Seq<char>) -> bool {
    first_ix_from(h, '.', 0) < h.len()
}

/// The second dot-separated segment of a host: the characters between the
/// first `.` and the next `.` (or the end of the host).
pub open spec fn region_of(h: Seq<char>) -> Seq<char> {
    let d1 = first_ix_from(h, '.', 0);
    h.subrange(d1 + 1, first_ix_from(h, '.', d1 + 1))
}

/// The first occurrence of `c` at or after `from` is at `i`, given that
/// `i` points at `c` (or is the end) and no `c` stands in `[from, i)`.
pub proof fn lemma_first_ix_eq(s: Seq<char>, c: char, from: int, i: int)
    requires
        0 <= from <= i <= s.len(),
        i == s.len() || s[i] == c,
        forall|j: int| from <= j < i ==> s[j] != c,
    ensures
        first_ix_from(s, c, from) == i,
    decreases i - from,
{
    if from < i {
        lemma_first_ix_eq(s, c, from + 1, i);
    }
}

/// The first `://` at or after `from` is at `i`, given that one stands at
/// `i` and none stands in `[from, i)`.
pub proof fn lemma_first_sep_eq(s: Seq<char>, from: int, i: int)
    requires
        0 <= from <= i,
        sep_at(s, i),
        forall|j: int| from <= j < i ==> !sep_at(s, j),
    ensures
        first_sep_from(s, from) == i,
    decreases i - from,
{
    if from < i {
        lemma_first_sep_eq(s, from + 1, i);
    }
}

/// If `c` does not occur in `s`, its last index is `-1`.
pub proof fn lemma_last_ix_none(s: Seq<char>, c: char)
    requires
        forall|j: int| 0 <= j < s.len() ==> s[j] != c,
    ensures
        last_ix(s, c) == -1,
    decreases s.len(),
{
    if s.len() > 0 {
        lemma_last_ix_none(s.drop_last(), c);
    }
}

/// For every location of the form `scheme://bucket/...` — a well-formed
/// scheme, then a non-empty bucket free of `/`, `@` and `:`, then a path —
/// the location parses and its host is the bucket, verbatim.  Bucket
/// extraction therefore returns exactly the bucket for such locations.
pub proof fn lemma_host_of_simple_location(scheme: Seq<char>, bucket: Seq<char>, rest: Seq<char>)
    requires
        valid_scheme(scheme),
        bucket.len() > 0,
        forall|i: int|
            0 <= i < bucket.len() ==> bucket[i] != '/' && bucket[i] != '@' && bucket[i] != ':',
    ensures
        ({
            let loc = scheme + seq![':', '/', '/'] + bucket + seq!['/'] + rest;
            host_present(loc) && spec_host(loc) == bucket
        }),
{
    let loc = scheme + seq![':', '/', '/'] + bucket + seq!['/'] + rest;
    let m = scheme.len() as int;
    assert(loc[m] == ':' && loc[m + 1] == '/' && loc[m + 2] == '/');
    assert(sep_at(loc, m));
    assert forall|j: int| 0 <= j < m implies !sep_at(loc, j) by {
        assert(loc[j] == scheme[j]);
        assert(spec_scheme_char(scheme[j], j == 0));
    }
    lemma_first_sep_eq(loc, 0, m);
    assert(loc.subrange(0, m) =~= scheme);
    let a0 = m + 3;
    let bl = bucket.len() as int;
    assert(loc[a0 + bl] == '/');
    assert forall|j: int| a0 <= j < a0 + bl implies loc[j] != '/' by {
        assert(loc[j] == bucket[j - a0]);
    }
    lemma_first_ix_eq(loc, '/', a0, a0 + bl);
    assert(spec_authority(loc) =~= bucket);
    lemma_last_ix_none(bucket, '@');
    assert(bucket.skip(0) =~= bucket);
    lemma_first_ix_eq(bucket, ':', 0, bl);
    assert(spec_host(loc) =~= bucket);
}

/// For every host of the form `<head>.<region>.<suffix>` whose first two
/// segments hold no dot — `s3.<region>....` or `<bucket>.<region>....` —
/// the host has a region and it is `<region>`, verbatim.  Region
/// extraction therefore returns exactly the second dot-separated segment.
pub proof fn lemma_region_of_segmented_host(head: Seq<char>, region: Seq<char>, suffix: Seq<char>)
    requires
        forall|i: int| 0 <= i < head.len() ==> head[i] != '.',
        forall|i: int| 0 <= i < region.len() ==> region[i] != '.',
    ensures
        ({
            let h = head + seq!['.'] + region + seq!['.'] + suffix;
            has_region(h) && region_of(h) == region
        }),
{
    let h = head + seq!['.'] + region + seq!['.'] + suffix;
    let d1 = head.len() as int;
    let rl = region.len() as int;
    assert(h[d1] == '.');
    assert forall|j: int| 0 <= j < d1 implies h[j] != '.' by {
        assert(h[j] == head[j]);
    }
    lemma_first_ix_eq(h, '.', 0, d1);
    assert(h[d1 + 1 + rl] == '.');
    assert forall|j: int| d1 + 1 <= j < d1 + 1 + rl implies h[j] != '.' by {
        assert(h[j] == region[j - (d1 + 1)]);
    }
    lemma_first_ix_eq(h, '.', d1 + 1, d1 + 1 + rl);
    assert(region_of(h) =~= region);
}

/// A structured view of a parsed location, exposing its host.
pub struct ParsedLocation {
    pub host: Option<String>,
}

/// Find the first `://` of `s`, if any.
fn find_sep(s: &str) -> (r: Option<usize>)
    ensures
        match r {
            Some(i) => spec_sep(s@) == i,
            None => spec_sep(s@) == -1,
        },
{
    let n = s.unicode_len();
    if n < 3 {
        assert(spec_sep(s@) == -1);
        return None;
    }
    let mut i: usize = 0;
    while i <= n - 3
        invariant
            n == s@.len(),
            3 <= n,
            i <= n - 2,
            spec_sep(s@) == first_sep_from(s@, i as int),
        decreases n - i,
    {
        if s.get_char(i) == ':' && s.get_char(i + 1) == '/' && s.get_char(i + 2) == '/' {
            assert(sep_at(s@, i as int));
            assert(first_sep_from(s@, i as int) == i);
            return Some(i);
        }
        assert(!sep_at(s@, i as int));
        assert(first_sep_from(s@, i as int) == first_sep_from(s@, i as int + 1));
        i += 1;
    }
    assert(first_sep_from(s@, i as int) == -1);
    None
}

/// Check that the first `p` characters of `s` form a valid scheme.
fn check_scheme(s: &str, p: usize) -> (r: bool)
    requires
        p <= s@.len(),
    ensures
        r == valid_scheme(s@.subrange(0, p as int)),
{
    if p == 0 {
        return false;
    }
    let mut j: usize = 0;
    while j < p
        invariant
            p <= s@.len(),
            j <= p,
            forall|i: int| 0 <= i < j ==> spec_scheme_char(s@[i], i == 0),
        decreases p - j,
    {
        let c = s.get_char(j);
        let u = c as u32;
        let alpha = (97 <= u && u <= 122) || (65 <= u && u <= 90);
        let ok = if j == 0 {
            alpha
        } else {
            alpha || (48 <= u && u <= 57) || c == '+' || c == '-' || c == '.'
        };
        if !ok {
            assert(!spec_scheme_char(s@.subrange(0, p as int)[j as int], j == 0));
            return false;
        }
        assert(spec_scheme_char(s@[j as int], j == 0));
        j += 1;
    }
    assert(forall|i: int|
        0 <= i < p ==> s@.subrange(0, p as int)[i] == s@[i] && spec_scheme_char(s@[i], i == 0));
    true
}

/// Find the first occurrence of `c` in `s` at or after `from`; `s.len()`
/// if there is none.
pub(crate) fn find_char_from(s: &str, c: char, from: usize) -> (r: usize)
    requires
        from <= s@.len(),
    ensures
        r == first_ix_from(s@, c, from as int),
        from <= r <= s@.len(),
        r < s@.len() ==> s@[r as int] == c,
{
    let n = s.unicode_len();
    let mut i: usize = from;
    while i < n
        invariant
            n == s@.len(),
            from <= i <= n,
            first_ix_from(s@, c, from as int) == first_ix_from(s@, c, i as int),
        decreases n - i,
    {
        if s.get_char(i) == c {
            assert(first_ix_from(s@, c, i as int) == i);
            return i;
        }
        assert(first_ix_from(s@, c, i as int) == first_ix_from(s@, c, i as int + 1));
        i += 1;
    }
    assert(first_ix_from(s@, c, i as int) == n);
    n
}

/// Find the last occurrence of `c` in `s`, if any.
fn find_last_char(s: &str, c: char) -> (r: Option<usize>)
    ensures
        match r {
            Some(i) => last_ix(s@, c) == i && i < s@.len(),
            None => last_ix(s@, c) == -1,
        },
{
    let n = s.unicode_len();
    let mut i: usize = n;
    assert(s@.take(n as int) =~= s@);
    while i > 0
        invariant
            n == s@.len(),
            i <= n,
            last_ix(s@, c) == last_ix(s@.take(i as int), c),
        decreases i,
    {
        if s.get_char(i - 1) == c {
            assert(s@.take(i as int).last() == c);
            assert(last_ix(s@.take(i as int), c) == i - 1);
            return Some(i - 1);
        }
        assert(s@.take(i as int).drop_last() =~= s@.take(i as int - 1));
        assert(last_ix(s@.take(i as int), c) == last_ix(s@.take(i as int - 1), c));
        i -= 1;
    }
    assert(last_ix(s@.take(0), c) == -1);
    None
}

/// Parse a storage-location string into its structured form.
///
/// Fails with `InvalidConfig` exactly when the location does not start
/// with `scheme://` for a well-formed scheme.
pub fn parse_location(location: &str) -> (r: GvfsResult<ParsedLocation>)
    ensures
        r is Ok <==> parseable(location@),
        r is Ok ==> match r->Ok_0.host {
            Some(h) => spec_host(location@).len() > 0 && h@ == spec_host(location@),
            None => spec_host(location@).len() == 0,
        },
        r is Err ==> r->Err_0.code == ErrorCode::InvalidConfig && r->Err_0.message@
            == parse_error_message(location@),
{
    let n = location.unicode_len();
    let sep = match find_sep(location) {
        Some(i) => i,
        None => {
            return Err(
                ErrorCode::InvalidConfig.to_error(
                    String::from_str("Invalid fileset location: ").concat(location),
                ),
            );
        },
    };
    proof {
        lemma_first_sep_props(location@);
    }
    if !check_scheme(location, sep) {
        return Err(
            ErrorCode::InvalidConfig.to_error(
                String::from_str("Invalid fileset location: ").concat(location),
            ),
        );
    }
    let a0 = sep + 3;
    let ae = find_char_from(location, '/', a0);
    let auth = location.substring_char(a0, ae);
    assert(auth@ =~= spec_authority(location@));
    let hstart = match find_last_char(auth, '@') {
        Some(i) => i + 1,
        None => 0,
    };
    let alen = auth.unicode_len();
    let hp = auth.substring_char(hstart, alen);
    assert(hp@ =~= auth@.skip(last_ix(auth@, '@') + 1));
    let hend = find_char_from(hp, ':', 0);
    let host_slice = hp.substring_char(0, hend);
    assert(host_slice@ =~= spec_host(location@));
    if hend == 0 {
        Ok(ParsedLocation { host: None })
    } else {
        Ok(ParsedLocation { host: Some(host_slice.to_owned()) })
    }
}

/// A found separator lies three characters or more before the end.
proof fn lemma_first_sep_props(s: Seq<char>)
    ensures
        spec_sep(s) >= 0 ==> sep_at(s, spec_sep(s)),
        spec_sep(s) == -1 || 0 <= spec_sep(s) && spec_sep(s) + 3 <= s.len(),
{
    lemma_first_sep_from_props(s, 0);
}

proof fn lemma_first_sep_from_props(s: Seq<char>, from: int)
    requires
        0 <= from <= s.len(),
    ensures
        first_sep_from(s, from) >= 0 ==> sep_at(s, first_sep_from(s, from)),
        first_sep_from(s, from) == -1 || from <= first_sep_from(s, from) && first_sep_from(
            s,
            from,
        ) + 3 <= s.len(),
    decreases s.len() - from,
{
    if from + 3 > s.len() {
    } else if sep_at(s, from) {
    } else {
        lemma_first_sep_from_props(s, from + 1);
    }
}

} // verus!
