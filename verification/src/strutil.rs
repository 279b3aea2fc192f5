//! Verified character-level utilities over `&str` and `String`: equality,
//! substring search, splitting, trimming, and decimal conversions. Every
//! executable function is specified against a spec-level counterpart over
//! `Seq<char>`.
use vstd::prelude::*;

verus! {

// ---------------------------------------------------------------------------
// Character predicates
// ---------------------------------------------------------------------------

/// `c` is an ASCII decimal digit.
pub open spec fn spec_is_digit(c: char) -> bool {
    '0' <= c && c <= '9'
}

#[verifier::when_used_as_spec(spec_is_digit)]
pub fn is_digit(c: char) -> (r: bool)
    ensures
        r == spec_is_digit(c),
{
    c >= '0' && c <= '9'
}

/// `c` has the Unicode `White_Space` property, the set that `str::trim`
/// removes at either end of a string.
pub open spec fn spec_is_space(c: char) -> bool {
    ||| c == ' '
    ||| c == '\t'
    ||| c == '\n'
    ||| c == '\r'
    ||| c == '\u{000B}'
    ||| c == '\u{000C}'
    ||| c == '\u{0085}'
    ||| c == '\u{00A0}'
    ||| c == '\u{1680}'
    ||| ('\u{2000}' <= c && c <= '\u{200A}')
    ||| c == '\u{2028}'
    ||| c == '\u{2029}'
    ||| c == '\u{202F}'
    ||| c == '\u{205F}'
    ||| c == '\u{3000}'
}

#[verifier::when_used_as_spec(spec_is_space)]
pub fn is_space(c: char) -> (r: bool)
    ensures
        r == spec_is_space(c),
{
    c == ' ' || c == '\t' || c == '\n' || c == '\r' || c == '\u{000B}' || c == '\u{000C}'
        || c == '\u{0085}' || c == '\u{00A0}' || c == '\u{1680}' || (c >= '\u{2000}' && c
        <= '\u{200A}') || c == '\u{2028}' || c == '\u{2029}' || c == '\u{202F}' || c == '\u{205F}'
        || c == '\u{3000}'
}

// ---------------------------------------------------------------------------
// Equality and substring containment
// ---------------------------------------------------------------------------

/// Character-for-character string equality.
pub fn str_eq(a: &str, b: &str) -> (r: bool)
    ensures
        r == (a@ == b@),
{
    let alen = a.unicode_len();
    let blen = b.unicode_len();
    if alen != blen {
        return false;
    }
    let mut i: usize = 0;
    while i < alen
        invariant
            alen == a@.len(),
            alen == b@.len(),
            i <= alen,
            forall|j: int| 0 <= j < i ==> a@[j] == b@[j],
        decreases alen - i,
    {
        if a.get_char(i) != b.get_char(i) {
            return false;
        }
        i += 1;
    }
    proof {
        assert(a@ =~= b@);
    }
    true
}

/// The needle `n` occurs in `h` starting at position `i`.
pub open spec fn spec_contains_at(h: Seq<char>, i: int, n: Seq<char>) -> bool {
    0 <= i && i + n.len() <= h.len() && h.subrange(i, i + n.len() as int) == n
}

/// The needle `n` occurs somewhere in `h`.
pub open spec fn spec_contains(h: Seq<char>, n: Seq<char>) -> bool {
    exists|i: int| spec_contains_at(h, i, n)
}

/// Whether `n` occurs in `h` at exactly position `i`.
fn matches_at(h: &str, i: usize, n: &str) -> (r: bool)
    requires
        i + n@.len() <= h@.len(),
        h@.len() <= usize::MAX,
    ensures
        r == spec_contains_at(h@, i as int, n@),
{
    let nlen = n.unicode_len();
    let mut j: usize = 0;
    while j < nlen
        invariant
            nlen == n@.len(),
            i + nlen <= h@.len() <= usize::MAX,
            j <= nlen,
            forall|k: int| 0 <= k < j ==> h@[i + k] == n@[k],
        decreases nlen - j,
    {
        if h.get_char(i + j) != n.get_char(j) {
            proof {
                assert(h@.subrange(i as int, i + n@.len() as int)[j as int] == h@[i + j]);
            }
            return false;
        }
        j += 1;
    }
    proof {
        assert(h@.subrange(i as int, i + n@.len() as int) =~= n@);
    }
    true
}

/// Substring search: whether `n` occurs anywhere in `h`.
pub fn contains_sub(h: &str, n: &str) -> (r: bool)
    ensures
        r == spec_contains(h@, n@),
{
    let hlen = h.unicode_len();
    let nlen = n.unicode_len();
    if nlen > hlen {
        return false;
    }
    if nlen == 0 {
        proof {
            assert(h@.subrange(0, 0) =~= n@);
            assert(spec_contains_at(h@, 0, n@));
        }
        return true;
    }
    let mut i: usize = 0;
    while i <= hlen - nlen
        invariant
            0 < nlen <= hlen,
            hlen == h@.len(),
            nlen == n@.len(),
            i <= hlen - nlen + 1,
            forall|k: int| 0 <= k < i ==> !spec_contains_at(h@, k, n@),
        decreases hlen - nlen + 1 - i,
    {
        if matches_at(h, i, n) {
            return true;
        }
        i += 1;
    }
    false
}

/// Earliest occurrence of the needle `n` in `h` at or after position `from`.
pub fn find_sub_from(h: &str, n: &str, from: usize) -> (r: Option<usize>)
    requires
        from <= h@.len(),
    ensures
        match r {
            Some(i) => from <= i && spec_contains_at(h@, i as int, n@) && (forall|k: int|
                from <= k < i ==> !spec_contains_at(h@, k, n@)),
            None => forall|k: int| from <= k ==> !spec_contains_at(h@, k, n@),
        },
{
    let hlen = h.unicode_len();
    let nlen = n.unicode_len();
    if nlen > hlen || from > hlen - nlen {
        return None;
    }
    if nlen == 0 {
        proof {
            assert(h@.subrange(from as int, from as int) =~= n@);
            assert(spec_contains_at(h@, from as int, n@));
        }
        return Some(from);
    }
    let mut i: usize = from;
    while i <= hlen - nlen
        invariant
            0 < nlen <= hlen,
            hlen == h@.len(),
            nlen == n@.len(),
            from <= i <= hlen - nlen + 1,
            forall|k: int| from <= k < i ==> !spec_contains_at(h@, k, n@),
        decreases hlen - nlen + 1 - i,
    {
        if matches_at(h, i, n) {
            return Some(i);
        }
        i += 1;
    }
    None
}

// ---------------------------------------------------------------------------
// Splitting
// ---------------------------------------------------------------------------

/// Index of the first occurrence of `c` in `s`, or -1 when absent.
pub open spec fn spec_find_char(s: Seq<char>, c: char) -> int
    decreases s.len(),
{
    if s.len() == 0 {
        -1
    } else if s[0] == c {
        0
    } else if spec_find_char(s.drop_first(), c) < 0 {
        -1
    } else {
        spec_find_char(s.drop_first(), c) + 1
    }
}

pub proof fn lemma_find_char(s: Seq<char>, c: char)
    ensures
        spec_find_char(s, c) >= 0 ==> spec_find_char(s, c) < s.len() && s[spec_find_char(s, c)]
            == c && (forall|j: int| 0 <= j < spec_find_char(s, c) ==> s[j] != c),
        spec_find_char(s, c) < 0 ==> (forall|j: int| 0 <= j < s.len() ==> s[j] != c),
    decreases s.len(),
{
    if s.len() != 0 && s[0] != c {
        lemma_find_char(s.drop_first(), c);
        assert(forall|j: int| 1 <= j < s.len() ==> s[j] == s.drop_first()[j - 1]);
    }
}

/// The pieces of `s` between occurrences of the separator `c`; a string
/// without the separator yields itself as the one piece.
pub open spec fn spec_split(s: Seq<char>, c: char) -> Seq<Seq<char>>
    decreases s.len(),
    via spec_split_decreases
{
    let i = spec_find_char(s, c);
    if i < 0 {
        seq![s]
    } else {
        seq![s.subrange(0, i)] + spec_split(s.skip(i + 1), c)
    }
}

#[via_fn]
proof fn spec_split_decreases(s: Seq<char>, c: char) {
    lemma_find_char(s, c);
}

/// Index of the first occurrence of `c` in `s`, when there is one.
pub fn find_char(s: &str, c: char) -> (r: Option<usize>)
    ensures
        r is Some ==> spec_find_char(s@, c) == r->0 as int,
        r is None ==> spec_find_char(s@, c) < 0,
{
    let len = s.unicode_len();
    let mut i: usize = 0;
    while i < len
        invariant
            i <= len,
            len == s@.len(),
            forall|j: int| 0 <= j < i ==> s@[j] != c,
        decreases len - i,
    {
        if s.get_char(i) == c {
            proof {
                lemma_find_char_unique(s@, c, i as int);
            }
            return Some(i);
        }
        i += 1;
    }
    proof {
        lemma_find_char(s@, c);
        if spec_find_char(s@, c) >= 0 {
            assert(s@[spec_find_char(s@, c)] == c);
        }
    }
    None
}

proof fn lemma_find_char_unique(s: Seq<char>, c: char, i: int)
    requires
        0 <= i < s.len(),
        s[i] == c,
        forall|j: int| 0 <= j < i ==> s[j] != c,
    ensures
        spec_find_char(s, c) == i,
{
    lemma_find_char(s, c);
}

/// Splits `s` on the character `c`, as `str::split` does: n separators give
/// n + 1 pieces, empty pieces included.
pub fn split_char(s: &str, c: char) -> (r: Vec<String>)
    ensures
        r.deep_view() == spec_split(s@, c),
{
    let len = s.unicode_len();
    let mut r: Vec<String> = Vec::new();
    let mut p: usize = 0;
    proof {
        assert(s@.skip(0) =~= s@);
        assert(r.deep_view() =~~= Seq::<Seq<char>>::empty());
    }
    loop
        invariant
            p <= len,
            len == s@.len(),
            r.deep_view() + spec_split(s@.skip(p as int), c) =~~= spec_split(s@, c),
        decreases len - p,
    {
        // find the next separator at or after p
        let mut i: usize = p;
        let mut found: bool = false;
        while i < len && !found
            invariant
                p <= i <= len,
                len == s@.len(),
                found ==> i < len && s@[i as int] == c,
                forall|j: int| p <= j < i ==> s@[j] != c,
            decreases len - i + (if found { 0int } else { 1int }),
        {
            if s.get_char(i) == c {
                found = true;
            } else {
                i += 1;
            }
        }
        let ghost suffix = s@.skip(p as int);
        let ghost r0 = r.deep_view();
        if found {
            let piece = s.substring_char(p, i);
            proof {
                assert(suffix[i - p] == c);
                assert(forall|j: int| 0 <= j < i - p ==> suffix[j] == s@[p + j] && s@[p + j] != c);
                lemma_find_char_unique(suffix, c, i - p);
                assert(suffix.subrange(0, i - p) =~= s@.subrange(p as int, i as int));
                assert(suffix.skip(i - p + 1) =~= s@.skip(i + 1));
                assert(spec_split(suffix, c) == seq![s@.subrange(p as int, i as int)] + spec_split(
                    s@.skip(i + 1),
                    c,
                ));
            }
            r.push(String::from_str(piece));
            proof {
                assert(r.deep_view() =~~= r0.push(piece@));
                assert(r0.push(piece@) + spec_split(s@.skip(i + 1), c) =~~= r0 + spec_split(
                    suffix,
                    c,
                ));
            }
            p = i + 1;
        } else {
            let piece = s.substring_char(p, len);
            proof {
                assert(forall|j: int| 0 <= j < suffix.len() ==> suffix[j] == s@[p + j] && s@[p + j]
                    != c);
                assert(spec_find_char(suffix, c) < 0) by {
                    lemma_find_char(suffix, c);
                    if spec_find_char(suffix, c) >= 0 {
                        assert(suffix[spec_find_char(suffix, c)] == c);
                    }
                }
                assert(spec_split(suffix, c) == seq![suffix]);
                assert(suffix =~= s@.subrange(p as int, len as int));
            }
            r.push(String::from_str(piece));
            proof {
                assert(r.deep_view() =~~= r0.push(piece@));
                assert(r0.push(piece@) =~~= r0 + seq![suffix]);
                assert(r.deep_view() =~~= spec_split(s@, c));
            }
            return r;
        }
    }
}

/// Index of the earliest occurrence of `n` in `h`, or -1 when absent.
pub open spec fn spec_find_sub(h: Seq<char>, n: Seq<char>) -> int
    decreases h.len(),
    via spec_find_sub_decreases
{
    if h.len() < n.len() {
        -1
    } else if h.subrange(0, n.len() as int) == n {
        0
    } else if spec_find_sub(h.drop_first(), n) < 0 {
        -1
    } else {
        spec_find_sub(h.drop_first(), n) + 1
    }
}

#[via_fn]
proof fn spec_find_sub_decreases(h: Seq<char>, n: Seq<char>) {
    if n.len() == 0 && h.len() >= n.len() {
        assert(h.subrange(0, 0) =~= n);
    }
}

pub proof fn lemma_find_sub(h: Seq<char>, n: Seq<char>)
    ensures
        spec_find_sub(h, n) >= 0 ==> spec_contains_at(h, spec_find_sub(h, n), n) && (forall|k: int|
            0 <= k < spec_find_sub(h, n) ==> !spec_contains_at(h, k, n)),
        spec_find_sub(h, n) < 0 ==> (forall|k: int| !spec_contains_at(h, k, n)),
    decreases h.len(),
{
    if h.len() < n.len() {
    } else if h.subrange(0, n.len() as int) == n {
    } else {
        if n.len() == 0 {
            assert(h.subrange(0, 0) =~= n);
        }
        lemma_find_sub(h.drop_first(), n);
        assert forall|k: int| 1 <= k implies (spec_contains_at(h, k, n) <==> spec_contains_at(
            h.drop_first(),
            k - 1,
            n,
        )) by {
            if 0 <= k - 1 && k - 1 + n.len() <= h.drop_first().len() {
                assert(h.subrange(k, k + n.len() as int) =~= h.drop_first().subrange(
                    k - 1,
                    k - 1 + n.len() as int,
                ));
            }
        }
        assert(!spec_contains_at(h, 0, n));
    }
}

/// The pieces of `s` between occurrences of the separator string `sep`.
pub open spec fn spec_split_sub(s: Seq<char>, sep: Seq<char>) -> Seq<Seq<char>>
    decreases s.len(),
    when sep.len() > 0
    via spec_split_sub_decreases
{
    let i = spec_find_sub(s, sep);
    if i < 0 {
        seq![s]
    } else {
        seq![s.subrange(0, i)] + spec_split_sub(s.skip(i + sep.len() as int), sep)
    }
}

#[via_fn]
proof fn spec_split_sub_decreases(s: Seq<char>, sep: Seq<char>) {
    lemma_find_sub(s, sep);
}

proof fn lemma_find_sub_unique(h: Seq<char>, n: Seq<char>, i: int)
    requires
        spec_contains_at(h, i, n),
        forall|k: int| 0 <= k < i ==> !spec_contains_at(h, k, n),
    ensures
        spec_find_sub(h, n) == i,
{
    lemma_find_sub(h, n);
}

/// Splits `s` on the separator string `sep`, as `str::split` does.
pub fn split_sub(s: &str, sep: &str) -> (r: Vec<String>)
    requires
        sep@.len() > 0,
    ensures
        r.deep_view() == spec_split_sub(s@, sep@),
{
    let len = s.unicode_len();
    let seplen = sep.unicode_len();
    let mut r: Vec<String> = Vec::new();
    let mut p: usize = 0;
    proof {
        assert(s@.skip(0) =~= s@);
        assert(r.deep_view() =~~= Seq::<Seq<char>>::empty());
    }
    loop
        invariant
            p <= len,
            len == s@.len(),
            seplen == sep@.len(),
            0 < seplen,
            r.deep_view() + spec_split_sub(s@.skip(p as int), sep@) =~~= spec_split_sub(s@, sep@),
        decreases len - p,
    {
        let found = find_sub_from(s, sep, p);
        let ghost suffix = s@.skip(p as int);
        let ghost r0 = r.deep_view();
        proof {
            assert forall|k: int| 0 <= k implies (spec_contains_at(s@, p + k, sep@)
                <==> spec_contains_at(suffix, k, sep@)) by {
                if k + sep@.len() <= suffix.len() {
                    assert(s@.subrange(p + k, p + k + sep@.len() as int) =~= suffix.subrange(
                        k,
                        k + sep@.len() as int,
                    ));
                }
            }
        }
        match found {
            Some(i) => {
                let piece = s.substring_char(p, i);
                proof {
                    assert(spec_contains_at(suffix, i - p, sep@));
                    lemma_find_sub_unique(suffix, sep@, i - p);
                    assert(suffix.subrange(0, i - p) =~= s@.subrange(p as int, i as int));
                    assert(suffix.skip(i - p + sep@.len() as int) =~= s@.skip(
                        i + sep@.len() as int,
                    ));
                    assert(spec_split_sub(suffix, sep@) == seq![s@.subrange(p as int, i as int)]
                        + spec_split_sub(s@.skip(i + seplen), sep@));
                }
                r.push(String::from_str(piece));
                proof {
                    assert(r.deep_view() =~~= r0.push(piece@));
                    assert(r0.push(piece@) + spec_split_sub(s@.skip(i + seplen), sep@) =~~= r0
                        + spec_split_sub(suffix, sep@));
                }
                p = i + seplen;
            },
            None => {
                let piece = s.substring_char(p, len);
                proof {
                    assert(spec_find_sub(suffix, sep@) < 0) by {
                        lemma_find_sub(suffix, sep@);
                        if spec_find_sub(suffix, sep@) >= 0 {
                            let k = spec_find_sub(suffix, sep@);
                            assert(spec_contains_at(s@, p + k, sep@));
                        }
                    }
                    assert(spec_split_sub(suffix, sep@) == seq![suffix]);
                    assert(suffix =~= s@.subrange(p as int, len as int));
                }
                r.push(String::from_str(piece));
                proof {
                    assert(r.deep_view() =~~= r0.push(piece@));
                    assert(r0.push(piece@) =~~= r0 + seq![suffix]);
                    assert(r.deep_view() =~~= spec_split_sub(s@, sep@));
                }
                return r;
            },
        }
    }
}

// ---------------------------------------------------------------------------
// Trimming
// ---------------------------------------------------------------------------

/// `s` without leading whitespace.
pub open spec fn spec_trim_start(s: Seq<char>) -> Seq<char>
    decreases s.len(),
{
    if s.len() == 0 {
        s
    } else if spec_is_space(s[0]) {
        spec_trim_start(s.drop_first())
    } else {
        s
    }
}

/// `s` without trailing whitespace.
pub open spec fn spec_trim_end(s: Seq<char>) -> Seq<char>
    decreases s.len(),
{
    if s.len() == 0 {
        s
    } else if spec_is_space(s.last()) {
        spec_trim_end(s.drop_last())
    } else {
        s
    }
}

/// `s` without leading or trailing whitespace, as `str::trim` returns it.
pub open spec fn spec_trim(s: Seq<char>) -> Seq<char> {
    spec_trim_end(spec_trim_start(s))
}

/// Removes leading and trailing whitespace.
pub fn trim_str(s: &str) -> (r: String)
    ensures
        r@ == spec_trim(s@),
{
    let len = s.unicode_len();
    let mut start: usize = 0;
    proof {
        assert(s@.skip(0) =~= s@);
    }
    while start < len && is_space(s.get_char(start))
        invariant
            start <= len,
            len == s@.len(),
            spec_trim_start(s@) == spec_trim_start(s@.skip(start as int)),
        decreases len - start,
    {
        proof {
            let suf = s@.skip(start as int);
            assert(suf[0] == s@[start as int]);
            assert(suf.drop_first() =~= s@.skip(start + 1));
        }
        start += 1;
    }
    proof {
        let suf = s@.skip(start as int);
        if start < len {
            assert(suf[0] == s@[start as int]);
        }
        assert(spec_trim_start(s@) == suf);
        assert(suf =~= s@.subrange(start as int, len as int));
    }
    let mut end: usize = len;
    while end > start && is_space(s.get_char(end - 1))
        invariant
            start <= end <= len,
            len == s@.len(),
            spec_trim_start(s@) == s@.subrange(start as int, len as int),
            spec_trim_end(s@.subrange(start as int, len as int)) == spec_trim_end(
                s@.subrange(start as int, end as int),
            ),
        decreases end,
    {
        proof {
            let cur = s@.subrange(start as int, end as int);
            assert(cur.last() == s@[end - 1]);
            assert(cur.drop_last() =~= s@.subrange(start as int, end - 1));
        }
        end -= 1;
    }
    proof {
        let cur = s@.subrange(start as int, end as int);
        if end > start {
            assert(cur.last() == s@[end - 1]);
        }
        assert(spec_trim_end(cur) == cur);
    }
    let piece = s.substring_char(start, end);
    String::from_str(piece)
}

// ---------------------------------------------------------------------------
// Joining
// ---------------------------------------------------------------------------

/// The pieces of `parts` joined with the separator `sep` between them.
pub open spec fn spec_join(parts: Seq<Seq<char>>, sep: Seq<char>) -> Seq<char>
    decreases parts.len(),
{
    if parts.len() == 0 {
        Seq::empty()
    } else if parts.len() == 1 {
        parts[0]
    } else {
        parts[0] + sep + spec_join(parts.drop_first(), sep)
    }
}

pub proof fn lemma_join_push(parts: Seq<Seq<char>>, x: Seq<char>, sep: Seq<char>)
    ensures
        parts.len() == 0 ==> spec_join(parts.push(x), sep) == x,
        parts.len() > 0 ==> spec_join(parts.push(x), sep) == spec_join(parts, sep) + sep + x,
    decreases parts.len(),
{
    if parts.len() == 0 {
        assert(parts.push(x)[0] == x);
    } else {
        lemma_join_push(parts.drop_first(), x, sep);
        assert(parts.push(x).drop_first() =~~= parts.drop_first().push(x));
        if parts.len() == 1 {
            assert(parts.drop_first().len() == 0);
            assert(spec_join(parts.push(x), sep) == parts[0] + sep + x);
        } else {
            assert(spec_join(parts.push(x), sep) == parts[0] + sep + (spec_join(
                parts.drop_first(),
                sep,
            ) + sep + x));
            assert(parts[0] + sep + (spec_join(parts.drop_first(), sep) + sep + x) =~= (parts[0]
                + sep + spec_join(parts.drop_first(), sep)) + sep + x);
        }
    }
}

/// Every joined piece occurs in the joined text.
pub proof fn lemma_join_contains(parts: Seq<Seq<char>>, sep: Seq<char>, k: int)
    requires
        0 <= k < parts.len(),
    ensures
        spec_contains(spec_join(parts, sep), parts[k]),
    decreases parts.len(),
{
    let j = spec_join(parts, sep);
    if parts.len() == 1 {
        assert(j.subrange(0, j.len() as int) =~= parts[0]);
        assert(spec_contains_at(j, 0, parts[0]));
    } else if k == 0 {
        assert(j.subrange(0, parts[0].len() as int) =~= parts[0]);
        assert(spec_contains_at(j, 0, parts[0]));
    } else {
        lemma_join_contains(parts.drop_first(), sep, k - 1);
        let jr = spec_join(parts.drop_first(), sep);
        let i = choose|i: int| #[trigger] spec_contains_at(jr, i, parts.drop_first()[k - 1]);
        let off = parts[0].len() + sep.len();
        assert(j.subrange(off + i, off + i + parts[k].len() as int) =~= jr.subrange(
            i,
            i + parts[k].len() as int,
        ));
        assert(spec_contains_at(j, off + i, parts[k]));
    }
}

/// Joins string slices with a separator, as `[&str]::join` does.
pub fn join_strs(parts: &Vec<&str>, sep: &str) -> (r: String)
    ensures
        r@ == spec_join(parts.deep_view(), sep@),
{
    let mut r = String::new();
    let mut i: usize = 0;
    proof {
        assert(parts.deep_view().take(0) =~~= Seq::<Seq<char>>::empty());
    }
    while i < parts.len()
        invariant
            i <= parts.len(),
            r@ == spec_join(parts.deep_view().take(i as int), sep@),
        decreases parts.len() - i,
    {
        if i > 0 {
            r.append(sep);
        }
        r.append(parts[i]);
        proof {
            let dv = parts.deep_view();
            assert(dv.take(i + 1) =~~= dv.take(i as int).push(dv[i as int]));
            lemma_join_push(dv.take(i as int), dv[i as int], sep@);
            assert(dv[i as int] == parts@[i as int]@);
        }
        i += 1;
    }
    proof {
        assert(parts.deep_view().take(parts@.len() as int) =~~= parts.deep_view());
    }
    r
}

/// Whether one of the owned strings equals `s`.
pub fn vec_contains_str(v: &Vec<String>, s: &str) -> (r: bool)
    ensures
        r == v.deep_view().contains(s@),
{
    let mut i: usize = 0;
    while i < v.len()
        invariant
            i <= v@.len(),
            forall|j: int| 0 <= j < i ==> v.deep_view()[j] != s@,
        decreases v@.len() - i,
    {
        if str_eq(v[i].as_str(), s) {
            proof {
                assert(v.deep_view()[i as int] == s@);
            }
            return true;
        }
        proof {
            assert(v.deep_view()[i as int] == v@[i as int]@);
        }
        i += 1;
    }
    false
}

/// Joins owned strings with a separator, as `[String]::join` does.
pub fn join_strings(parts: &Vec<String>, sep: &str) -> (r: String)
    ensures
        r@ == spec_join(parts.deep_view(), sep@),
{
    let mut r = String::new();
    let mut i: usize = 0;
    proof {
        assert(parts.deep_view().take(0) =~~= Seq::<Seq<char>>::empty());
    }
    while i < parts.len()
        invariant
            i <= parts@.len(),
            r@ == spec_join(parts.deep_view().take(i as int), sep@),
        decreases parts@.len() - i,
    {
        if i > 0 {
            r.append(sep);
        }
        r.append(parts[i].as_str());
        proof {
            let dv = parts.deep_view();
            assert(dv.take(i + 1) =~~= dv.take(i as int).push(dv[i as int]));
            lemma_join_push(dv.take(i as int), dv[i as int], sep@);
            assert(dv[i as int] == parts@[i as int]@);
        }
        i += 1;
    }
    proof {
        assert(parts.deep_view().take(parts@.len() as int) =~~= parts.deep_view());
    }
    r
}

// ---------------------------------------------------------------------------
// Lexicographic order and sorting
// ---------------------------------------------------------------------------

/// Lexicographic order on character sequences by code point; UTF-8 preserves
/// code-point order, so this is the order Rust's string comparison gives.
pub open spec fn spec_str_le(a: Seq<char>, b: Seq<char>) -> bool
    decreases a.len(),
{
    if a.len() == 0 {
        true
    } else if b.len() == 0 {
        false
    } else if a[0] == b[0] {
        spec_str_le(a.drop_first(), b.drop_first())
    } else {
        a[0] < b[0]
    }
}

pub proof fn lemma_str_le_total(a: Seq<char>, b: Seq<char>)
    ensures
        spec_str_le(a, b) || spec_str_le(b, a),
    decreases a.len(),
{
    if a.len() > 0 && b.len() > 0 && a[0] == b[0] {
        lemma_str_le_total(a.drop_first(), b.drop_first());
    }
}

pub proof fn lemma_str_le_trans(a: Seq<char>, b: Seq<char>, c: Seq<char>)
    requires
        spec_str_le(a, b),
        spec_str_le(b, c),
    ensures
        spec_str_le(a, c),
    decreases a.len(),
{
    if a.len() > 0 && b.len() > 0 && c.len() > 0 && a[0] == b[0] && b[0] == c[0] {
        lemma_str_le_trans(a.drop_first(), b.drop_first(), c.drop_first());
    }
}

/// Compares two strings lexicographically.
pub fn str_le(a: &str, b: &str) -> (r: bool)
    ensures
        r == spec_str_le(a@, b@),
{
    let alen = a.unicode_len();
    let blen = b.unicode_len();
    let mut i: usize = 0;
    proof {
        assert(a@.skip(0) =~= a@);
        assert(b@.skip(0) =~= b@);
    }
    while i < alen && i < blen
        invariant
            i <= alen,
            i <= blen,
            alen == a@.len(),
            blen == b@.len(),
            spec_str_le(a@, b@) == spec_str_le(a@.skip(i as int), b@.skip(i as int)),
        decreases alen - i,
    {
        let ca = a.get_char(i);
        let cb = b.get_char(i);
        proof {
            let sa = a@.skip(i as int);
            let sb = b@.skip(i as int);
            assert(sa[0] == a@[i as int]);
            assert(sb[0] == b@[i as int]);
            assert(sa.drop_first() =~= a@.skip(i + 1));
            assert(sb.drop_first() =~= b@.skip(i + 1));
        }
        if ca != cb {
            return ca < cb;
        }
        i += 1;
    }
    proof {
        if i == alen {
            assert(a@.skip(i as int).len() == 0);
        } else {
            assert(b@.skip(i as int).len() == 0);
            assert(a@.skip(i as int).len() > 0);
        }
    }
    alen <= blen
}

/// The sequence is sorted, weakly, under the lexicographic order.
pub open spec fn spec_sorted(s: Seq<Seq<char>>) -> bool {
    forall|i: int, j: int| 0 <= i < j < s.len() ==> spec_str_le(s[i], s[j])
}

proof fn lemma_to_multiset_insert(s: Seq<Seq<char>>, p: int, x: Seq<char>)
    requires
        0 <= p <= s.len(),
    ensures
        s.insert(p, x).to_multiset() =~= s.to_multiset().insert(x),
{
    broadcast use vstd::seq_lib::group_to_multiset_ensures;

    let t = s.insert(p, x);
    assert(t.remove(p) =~= s);
    assert(t[p] == x);
    assert(s.to_multiset() =~= t.to_multiset().remove(x));
    assert(t.to_multiset().count(x) > 0) by {
        assert(t.contains(x));
    }
    assert(t.to_multiset() =~= t.to_multiset().remove(x).insert(x));
}

/// Sorts strings lexicographically: the result is sorted and holds exactly
/// the input strings, multiplicities included.
pub fn sort_strings(v: &Vec<String>) -> (r: Vec<String>)
    ensures
        spec_sorted(r.deep_view()),
        r.deep_view().to_multiset() == v.deep_view().to_multiset(),
{
    broadcast use vstd::seq_lib::group_to_multiset_ensures;

    let mut r: Vec<String> = Vec::new();
    let mut i: usize = 0;
    proof {
        assert(v.deep_view().take(0) =~~= Seq::<Seq<char>>::empty());
        assert(r.deep_view() =~~= Seq::<Seq<char>>::empty());
    }
    while i < v.len()
        invariant
            i <= v@.len(),
            spec_sorted(r.deep_view()),
            r.deep_view().to_multiset() == v.deep_view().take(i as int).to_multiset(),
        decreases v@.len() - i,
    {
        let x = &v[i];
        proof {
            assert(v.deep_view()[i as int] == v@[i as int]@);
        }
        let mut p: usize = 0;
        while p < r.len() && str_le(r[p].as_str(), x.as_str())
            invariant
                p <= r@.len(),
                forall|q: int| 0 <= q < p ==> spec_str_le(r.deep_view()[q], x@),
            decreases r@.len() - p,
        {
            proof {
                assert(r.deep_view()[p as int] == r@[p as int]@);
            }
            p += 1;
        }
        proof {
            assert(forall|q: int| 0 <= q < r.deep_view().len() ==> r.deep_view()[q] == r@[q]@);
        }
        let ghost r0 = r.deep_view();
        r.insert(p, String::from_str(x.as_str()));
        proof {
            assert(r.deep_view() =~~= r0.insert(p as int, x@));
            let rd = r0.insert(p as int, x@);
            if p < r0.len() {
                lemma_str_le_total(r0[p as int], x@);
            }
            assert forall|ii: int, jj: int| 0 <= ii < jj < rd.len() implies spec_str_le(
                rd[ii],
                rd[jj],
            ) by {
                if jj < p {
                } else if ii < p && jj == p {
                    assert(spec_str_le(r0[ii], x@));
                } else if ii < p && jj > p {
                    assert(spec_str_le(r0[ii], r0[jj - 1]));
                } else if ii == p && jj > p {
                    assert(spec_str_le(x@, r0[p as int]));
                    if jj - 1 > p {
                        assert(spec_str_le(r0[p as int], r0[jj - 1]));
                        lemma_str_le_trans(x@, r0[p as int], r0[jj - 1]);
                    }
                } else {
                    assert(spec_str_le(r0[ii - 1], r0[jj - 1]));
                }
            }
            lemma_to_multiset_insert(r0, p as int, x@);
            assert(v.deep_view().take(i + 1) =~~= v.deep_view().take(i as int).push(
                v.deep_view()[i as int],
            ));
            v.deep_view().take(i as int).to_multiset_ensures();
            assert(v.deep_view().take(i as int).push(v.deep_view()[i as int]).to_multiset()
                =~= v.deep_view().take(i as int).to_multiset().insert(v.deep_view()[i as int]));
            assert(r.deep_view().to_multiset() =~= v.deep_view().take(i + 1).to_multiset());
        }
        i += 1;
    }
    proof {
        assert(v.deep_view().take(v@.len() as int) =~~= v.deep_view());
    }
    r
}

/// `s` with every trailing repetition of `suf` removed, as
/// `str::trim_end_matches` with a string pattern returns it.
pub open spec fn spec_trim_end_matches(s: Seq<char>, suf: Seq<char>) -> Seq<char>
    decreases s.len(),
    when suf.len() > 0
{
    if s.len() >= suf.len() && s.subrange(s.len() - suf.len(), s.len() as int) == suf {
        spec_trim_end_matches(s.take(s.len() - suf.len() as int), suf)
    } else {
        s
    }
}

/// Removes every trailing repetition of `suf`.
pub fn trim_end_matches_str(s: &str, suf: &str) -> (r: String)
    requires
        suf@.len() > 0,
    ensures
        r@ == spec_trim_end_matches(s@, suf@),
{
    let len = s.unicode_len();
    let suflen = suf.unicode_len();
    let mut end: usize = len;
    proof {
        assert(s@.take(len as int) =~= s@);
    }
    while end >= suflen && matches_at(s, end - suflen, suf)
        invariant
            end <= len,
            len == s@.len(),
            suflen == suf@.len(),
            0 < suflen,
            spec_trim_end_matches(s@, suf@) == spec_trim_end_matches(s@.take(end as int), suf@),
        decreases end,
    {
        proof {
            let cur = s@.take(end as int);
            assert(cur.subrange(end - suflen, end as int) =~= s@.subrange(
                end - suflen,
                end as int,
            ));
            assert(cur.take(end - suflen as int) =~= s@.take(end - suflen as int));
        }
        end -= suflen;
    }
    proof {
        let cur = s@.take(end as int);
        if end >= suflen {
            assert(cur.subrange(end - suflen, end as int) =~= s@.subrange(
                end - suflen,
                end as int,
            ));
        }
        assert(spec_trim_end_matches(cur, suf@) == cur);
    }
    let piece = s.substring_char(0, end);
    String::from_str(piece)
}

// ---------------------------------------------------------------------------
// Decimal rendering and parsing
// ---------------------------------------------------------------------------

/// The decimal digit character for `d` (0 through 9).
pub open spec fn digit_char(d: nat) -> char {
    if d == 0 {
        '0'
    } else if d == 1 {
        '1'
    } else if d == 2 {
        '2'
    } else if d == 3 {
        '3'
    } else if d == 4 {
        '4'
    } else if d == 5 {
        '5'
    } else if d == 6 {
        '6'
    } else if d == 7 {
        '7'
    } else if d == 8 {
        '8'
    } else {
        '9'
    }
}

/// The decimal rendering of `n`, without sign or leading zeros.
pub open spec fn dec_of(n: nat) -> Seq<char>
    decreases n,
{
    if n < 10 {
        seq![digit_char(n)]
    } else {
        dec_of(n / 10).push(digit_char(n % 10))
    }
}

fn digit_str(d: usize) -> (r: &'static str)
    requires
        d < 10,
    ensures
        r@ == seq![digit_char(d as nat)],
{
    if d == 0 {
        proof {
            reveal_strlit("0");
            assert("0"@ =~= seq![digit_char(0)]);
        }
        "0"
    } else if d == 1 {
        proof {
            reveal_strlit("1");
            assert("1"@ =~= seq![digit_char(1)]);
        }
        "1"
    } else if d == 2 {
        proof {
            reveal_strlit("2");
            assert("2"@ =~= seq![digit_char(2)]);
        }
        "2"
    } else if d == 3 {
        proof {
            reveal_strlit("3");
            assert("3"@ =~= seq![digit_char(3)]);
        }
        "3"
    } else if d == 4 {
        proof {
            reveal_strlit("4");
            assert("4"@ =~= seq![digit_char(4)]);
        }
        "4"
    } else if d == 5 {
        proof {
            reveal_strlit("5");
            assert("5"@ =~= seq![digit_char(5)]);
        }
        "5"
    } else if d == 6 {
        proof {
            reveal_strlit("6");
            assert("6"@ =~= seq![digit_char(6)]);
        }
        "6"
    } else if d == 7 {
        proof {
            reveal_strlit("7");
            assert("7"@ =~= seq![digit_char(7)]);
        }
        "7"
    } else if d == 8 {
        proof {
            reveal_strlit("8");
            assert("8"@ =~= seq![digit_char(8)]);
        }
        "8"
    } else {
        proof {
            reveal_strlit("9");
            assert("9"@ =~= seq![digit_char(9)]);
        }
        "9"
    }
}

/// Renders `n` in decimal.
pub fn usize_to_string(n: usize) -> (r: String)
    ensures
        r@ == dec_of(n as nat),
    decreases n,
{
    if n < 10 {
        String::from_str(digit_str(n))
    } else {
        let mut r = usize_to_string(n / 10);
        r.append(digit_str(n % 10));
        proof {
            assert(r@ =~= dec_of(n as nat));
        }
        r
    }
}

/// The numeric value of a decimal digit character.
pub open spec fn digit_val(c: char) -> nat {
    if c == '0' {
        0
    } else if c == '1' {
        1
    } else if c == '2' {
        2
    } else if c == '3' {
        3
    } else if c == '4' {
        4
    } else if c == '5' {
        5
    } else if c == '6' {
        6
    } else if c == '7' {
        7
    } else if c == '8' {
        8
    } else {
        9
    }
}

/// All characters of `s` are decimal digits.
pub open spec fn all_digits(s: Seq<char>) -> bool {
    forall|i: int| 0 <= i < s.len() ==> spec_is_digit(s[i])
}

/// The value of a digit sequence read in base ten.
pub open spec fn dec_val(s: Seq<char>) -> nat
    decreases s.len(),
{
    if s.len() == 0 {
        0
    } else {
        dec_val(s.drop_last()) * 10 + digit_val(s.last())
    }
}

/// `s` without one leading plus sign, the part `usize::from_str` reads digits
/// from.
pub open spec fn spec_digits_part(s: Seq<char>) -> Seq<char> {
    if s.len() > 0 && s[0] == '+' {
        s.drop_first()
    } else {
        s
    }
}

/// `s` is accepted by `usize::from_str`: an optional plus sign, then one or
/// more digits, with a value that fits in `usize`.
pub open spec fn spec_parses_usize(s: Seq<char>) -> bool {
    let d = spec_digits_part(s);
    d.len() > 0 && all_digits(d) && dec_val(d) <= usize::MAX
}

proof fn lemma_dec_val_take_succ(s: Seq<char>, i: int)
    requires
        0 <= i < s.len(),
    ensures
        dec_val(s.take(i + 1)) == dec_val(s.take(i)) * 10 + digit_val(s[i]),
{
    assert(s.take(i + 1).drop_last() =~= s.take(i));
    assert(s.take(i + 1).last() == s[i]);
}

proof fn lemma_dec_val_monotone(s: Seq<char>, i: int, j: int)
    requires
        0 <= i <= j <= s.len(),
    ensures
        dec_val(s.take(i)) <= dec_val(s.take(j)),
    decreases j - i,
{
    if i < j {
        lemma_dec_val_monotone(s, i, j - 1);
        lemma_dec_val_take_succ(s, j - 1);
    }
}

fn char_digit_val(c: char) -> (d: usize)
    requires
        spec_is_digit(c),
    ensures
        d as nat == digit_val(c),
{
    if c == '0' {
        0
    } else if c == '1' {
        1
    } else if c == '2' {
        2
    } else if c == '3' {
        3
    } else if c == '4' {
        4
    } else if c == '5' {
        5
    } else if c == '6' {
        6
    } else if c == '7' {
        7
    } else if c == '8' {
        8
    } else {
        9
    }
}

/// Parses `s` as `s.parse::<usize>()` does: `Some` exactly when `s` is an
/// optional plus sign followed by digits whose value fits.
pub fn parse_usize(s: &str) -> (r: Option<usize>)
    ensures
        r is Some <==> spec_parses_usize(s@),
        r is Some ==> r->0 as nat == dec_val(spec_digits_part(s@)),
{
    let len = s.unicode_len();
    if len == 0 {
        return None;
    }
    let start: usize = if s.get_char(0) == '+' {
        1
    } else {
        0
    };
    if start == len {
        return None;
    }
    let ghost d = spec_digits_part(s@);
    proof {
        assert(d =~= s@.subrange(start as int, len as int));
    }
    let mut acc: usize = 0;
    let mut i: usize = start;
    proof {
        assert(d.take(0) =~= Seq::<char>::empty());
    }
    while i < len
        invariant
            start <= i <= len,
            len == s@.len(),
            d == s@.subrange(start as int, len as int),
            d == spec_digits_part(s@),
            d.len() > 0,
            forall|j: int| start <= j < i ==> spec_is_digit(s@[j]),
            acc as nat == dec_val(d.take(i - start)),
        decreases len - i,
    {
        let c = s.get_char(i);
        proof {
            assert(d[i - start] == s@[i as int]);
        }
        if !is_digit(c) {
            return None;
        }
        let dv = char_digit_val(c);
        let acc10 = match acc.checked_mul(10) {
            Some(v) => v,
            None => {
                proof {
                    lemma_dec_val_take_succ(d, i - start);
                    assert(dec_val(d.take(i - start + 1)) == (acc as nat) * 10 + digit_val(
                        d[i - start],
                    ));
                    lemma_dec_val_monotone(d, i - start + 1, d.len() as int);
                    assert(d.take(d.len() as int) =~= d);
                    assert(dec_val(d) > usize::MAX);
                }
                return None;
            },
        };
        let acc2 = match acc10.checked_add(dv) {
            Some(v) => v,
            None => {
                proof {
                    lemma_dec_val_take_succ(d, i - start);
                    assert(dec_val(d.take(i - start + 1)) == (acc as nat) * 10 + digit_val(
                        d[i - start],
                    ));
                    lemma_dec_val_monotone(d, i - start + 1, d.len() as int);
                    assert(d.take(d.len() as int) =~= d);
                    assert(dec_val(d) > usize::MAX);
                }
                return None;
            },
        };
        proof {
            lemma_dec_val_take_succ(d, i - start);
        }
        acc = acc2;
        i += 1;
    }
    proof {
        assert(d.take(len - start) =~= d);
        assert(forall|j: int| 0 <= j < d.len() ==> d[j] == s@[start + j]);
    }
    Some(acc)
}

} // verus!
