//! Character-sequence utilities shared by the parsers of the proxy.
//!
//! Strings are modelled by their view, a `Seq<char>`. The searching, splitting,
//! trimming and replacing operations here are verified against the recursive
//! definitions below; the few conversions between `String` and `Vec<char>` are
//! thin wrappers around single std calls.
use vstd::prelude::*;

verus! {

// ---------------------------------------------------------------------------
// Conversions between strings and character vectors (std wrappers)
// ---------------------------------------------------------------------------

/// `str::chars` collected into a vector: the vector holds exactly the
/// characters of the string, in order.
#[verifier::external_body]
pub(crate) fn chars_of(s: &str) -> (v: Vec<char>)
    ensures
        v@ == s@,
{
    s.chars().collect()
}

/// `String::from_iter` over a slice of characters: the string holds exactly
/// those characters, in order.
#[verifier::external_body]
pub(crate) fn string_from_chars(v: &[char]) -> (s: String)
    ensures
        s@ == v@,
{
    v.iter().collect()
}

/// `String::push`: appends one character.
#[verifier::external_body]
pub(crate) fn push_char(s: &mut String, c: char)
    ensures
        final(s)@ == old(s)@.push(c),
{
    s.push(c)
}

/// `String::push_str`: appends a string slice.
#[verifier::external_body]
pub(crate) fn push_str(s: &mut String, t: &str)
    ensures
        final(s)@ == old(s)@ + t@,
{
    s.push_str(t)
}

/// Copies a string slice into a new `String`.
pub fn owned(s: &str) -> (r: String)
    ensures
        r@ == s@,
{
    s.to_owned()
}

/// Builds a `String` from a character sequence view of a vector.
pub fn string_of(v: &Vec<char>) -> (s: String)
    ensures
        s@ == v@,
{
    string_from_chars(v.as_slice())
}

// ---------------------------------------------------------------------------
// Specifications
// ---------------------------------------------------------------------------

/// `needle` occurs in `hay` at index `i`.
pub open spec fn occurs_at(hay: Seq<char>, needle: Seq<char>, i: int) -> bool {
    0 <= i && i + needle.len() <= hay.len() && hay.subrange(i, i + needle.len()) == needle
}

/// `needle` occurs somewhere in `hay`.
pub open spec fn contains_seq(hay: Seq<char>, needle: Seq<char>) -> bool {
    exists|i: int| occurs_at(hay, needle, i)
}

/// The index of the first occurrence of `needle` in `hay`, if any.
pub open spec fn first_occurrence(hay: Seq<char>, needle: Seq<char>) -> Option<int>
    decreases hay.len(),
{
    if needle.len() <= hay.len() && hay.subrange(0, needle.len() as int) == needle {
        Some(0)
    } else if hay.len() == 0 {
        None
    } else {
        match first_occurrence(hay.drop_first(), needle) {
            Some(i) => Some(i + 1),
            None => None,
        }
    }
}

pub open spec fn starts_with(s: Seq<char>, prefix: Seq<char>) -> bool {
    prefix.len() <= s.len() && s.subrange(0, prefix.len() as int) == prefix
}

pub open spec fn ends_with(s: Seq<char>, suffix: Seq<char>) -> bool {
    suffix.len() <= s.len() && s.subrange(s.len() - suffix.len(), s.len() as int) == suffix
}

/// `str::split` with a non-empty separator.
pub open spec fn split_seq(s: Seq<char>, sep: Seq<char>) -> Seq<Seq<char>>
    recommends
        sep.len() > 0,
    decreases s.len(),
{
    if sep.len() == 0 {
        seq![s]
    } else {
        match first_occurrence(s, sep) {
            None => seq![s],
            Some(i) => {
                proof {
                    lemma_first_occurrence(s, sep);
                }
                seq![s.subrange(0, i)] + split_seq(s.subrange(i + sep.len(), s.len() as int), sep)
            },
        }
    }
}

/// `str::replace`: every non-overlapping occurrence of `from`, scanning left to
/// right, is replaced by `to`. An empty pattern matches before every character
/// and at the end.
pub open spec fn replace_seq(s: Seq<char>, from: Seq<char>, to: Seq<char>) -> Seq<char>
    decreases s.len(), 1nat,
{
    if from.len() == 0 {
        replace_empty(s, to)
    } else if starts_with(s, from) {
        to + replace_seq(s.subrange(from.len() as int, s.len() as int), from, to)
    } else if s.len() == 0 {
        s
    } else {
        seq![s[0]] + replace_seq(s.drop_first(), from, to)
    }
}

pub open spec fn replace_empty(s: Seq<char>, to: Seq<char>) -> Seq<char>
    decreases s.len(), 0nat,
{
    if s.len() == 0 {
        to
    } else {
        to + seq![s[0]] + replace_empty(s.drop_first(), to)
    }
}

/// The characters that `char::is_whitespace` accepts (Unicode `White_Space`).
pub open spec fn is_whitespace(c: char) -> bool {
    let u = c as u32;
    (0x09 <= u && u <= 0x0d) || u == 0x20 || u == 0x85 || u == 0xa0 || u == 0x1680 || (0x2000
        <= u && u <= 0x200a) || u == 0x2028 || u == 0x2029 || u == 0x202f || u == 0x205f || u
        == 0x3000
}

/// Number of leading whitespace characters.
pub open spec fn leading_ws(s: Seq<char>) -> nat
    decreases s.len(),
{
    if s.len() > 0 && is_whitespace(s[0]) {
        1 + leading_ws(s.drop_first())
    } else {
        0
    }
}

/// Number of trailing whitespace characters.
pub open spec fn trailing_ws(s: Seq<char>) -> nat
    decreases s.len(),
{
    if s.len() > 0 && is_whitespace(s.last()) {
        1 + trailing_ws(s.drop_last())
    } else {
        0
    }
}

/// `str::trim`.
pub open spec fn trim_seq(s: Seq<char>) -> Seq<char> {
    let t = s.subrange(leading_ws(s) as int, s.len() as int);
    t.subrange(0, t.len() - trailing_ws(t))
}

/// Removes every occurrence of `c` (`str::replace` with a one-character
/// pattern and an empty replacement).
pub open spec fn remove_char(s: Seq<char>, c: char) -> Seq<char> {
    s.filter(|x: char| x != c)
}

/// The index of the last occurrence of `needle` in `hay`, if any.
pub open spec fn last_occurrence(hay: Seq<char>, needle: Seq<char>) -> Option<int> {
    if contains_seq(hay, needle) {
        Some(choose|i: int| occurs_at(hay, needle, i) && forall|j: int| i < j ==> !occurs_at(hay, needle, j))
    } else {
        None
    }
}

// ---------------------------------------------------------------------------
// Lemmas
// ---------------------------------------------------------------------------

pub proof fn lemma_first_occurrence(hay: Seq<char>, needle: Seq<char>)
    ensures
        match first_occurrence(hay, needle) {
            Some(i) => occurs_at(hay, needle, i) && forall|j: int|
                0 <= j < i ==> !occurs_at(hay, needle, j),
            None => forall|j: int| !occurs_at(hay, needle, j),
        },
    decreases hay.len(),
{
    if needle.len() <= hay.len() && hay.subrange(0, needle.len() as int) == needle {
    } else if hay.len() == 0 {
        assert forall|j: int| !occurs_at(hay, needle, j) by {
            if occurs_at(hay, needle, j) {
                assert(j == 0);
                assert(needle.len() == 0);
                assert(hay.subrange(0, 0) =~= needle);
            }
        }
    } else {
        let t = hay.drop_first();
        lemma_first_occurrence(t, needle);
        assert forall|j: int| occurs_at(hay, needle, j) && j >= 1 implies occurs_at(
            t,
            needle,
            j - 1,
        ) by {
            assert(t.subrange(j - 1, j - 1 + needle.len()) =~= hay.subrange(j, j + needle.len()));
        }
        assert forall|j: int| occurs_at(t, needle, j) implies occurs_at(hay, needle, j + 1) by {
            assert(t.subrange(j, j + needle.len()) =~= hay.subrange(j + 1, j + 1 + needle.len()));
        }
    }
}

pub proof fn lemma_last_occurrence(hay: Seq<char>, needle: Seq<char>)
    ensures
        match last_occurrence(hay, needle) {
            Some(i) => occurs_at(hay, needle, i) && forall|j: int| i < j ==> !occurs_at(hay, needle, j),
            None => forall|j: int| !occurs_at(hay, needle, j),
        },
{
    if contains_seq(hay, needle) {
        let w = choose|i: int| occurs_at(hay, needle, i);
        assert(occurs_at(hay, needle, w));
        // the largest occurrence exists since occurrences are bounded by the length
        lemma_last_exists(hay, needle, w);
    }
}

proof fn lemma_last_exists(hay: Seq<char>, needle: Seq<char>, w: int)
    requires
        occurs_at(hay, needle, w),
    ensures
        exists|i: int| occurs_at(hay, needle, i) && forall|j: int| i < j ==> !occurs_at(hay, needle, j),
    decreases hay.len() - w,
{
    if forall|j: int| w < j ==> !occurs_at(hay, needle, j) {
    } else {
        let v = choose|j: int| w < j && occurs_at(hay, needle, j);
        lemma_last_exists(hay, needle, v);
    }
}

// ---------------------------------------------------------------------------
// Executable operations
// ---------------------------------------------------------------------------

/// Whether `needle` occurs in `hay` at index `i`.
pub fn matches_at(hay: &[char], needle: &[char], i: usize) -> (r: bool)
    ensures
        r == occurs_at(hay@, needle@, i as int),
{
    if i > hay.len() || needle.len() > hay.len() - i {
        return false;
    }
    let mut k: usize = 0;
    while k < needle.len()
        invariant
            i + needle@.len() <= hay@.len(),
            hay@.len() == hay.len(),
            needle@.len() == needle.len(),
            k <= needle@.len(),
            forall|m: int| 0 <= m < k ==> hay@[i + m] == needle@[m],
        decreases needle@.len() - k,
    {
        if hay[i + k] != needle[k] {
            assert(hay@.subrange(i as int, i + needle@.len())[k as int] != needle@[k as int]);
            return false;
        }
        k = k + 1;
    }
    assert(hay@.subrange(i as int, i + needle@.len()) =~= needle@);
    true
}

/// The index of the first occurrence of `needle` in `hay` at or after `from`.
pub fn find_from(hay: &[char], needle: &[char], from: usize) -> (r: Option<usize>)
    ensures
        match r {
            Some(i) => from <= i && occurs_at(hay@, needle@, i as int) && forall|j: int|
                from <= j < i ==> !occurs_at(hay@, needle@, j),
            None => forall|j: int| from <= j ==> !occurs_at(hay@, needle@, j),
        },
{
    let mut i: usize = from;
    if i > hay.len() {
        return None;
    }
    while i < hay.len()
        invariant
            from <= i <= hay@.len(),
            forall|j: int| from <= j < i ==> !occurs_at(hay@, needle@, j),
        decreases hay@.len() - i,
    {
        if matches_at(hay, needle, i) {
            return Some(i);
        }
        i = i + 1;
    }
    if matches_at(hay, needle, i) {
        return Some(i);
    }
    None
}

/// `str::find`: the first occurrence of `needle` in `hay`.
pub fn find(hay: &[char], needle: &[char]) -> (r: Option<usize>)
    ensures
        r matches Some(i) ==> first_occurrence(hay@, needle@) == Some(i as int),
        r is None ==> first_occurrence(hay@, needle@) is None,
{
    let r = find_from(hay, needle, 0);
    proof {
        lemma_first_occurrence(hay@, needle@);
    }
    r
}

/// `str::contains`.
pub fn contains(hay: &[char], needle: &[char]) -> (r: bool)
    ensures
        r == contains_seq(hay@, needle@),
{
    let r = find_from(hay, needle, 0);
    r.is_some()
}

/// `str::starts_with`.
pub fn has_prefix(s: &[char], prefix: &[char]) -> (r: bool)
    ensures
        r == starts_with(s@, prefix@),
{
    matches_at(s, prefix, 0)
}

/// `str::ends_with`.
pub fn has_suffix(s: &[char], suffix: &[char]) -> (r: bool)
    ensures
        r == ends_with(s@, suffix@),
{
    if suffix.len() > s.len() {
        return false;
    }
    matches_at(s, suffix, s.len() - suffix.len())
}

/// The characters `s[from..to]` as a new vector.
pub fn slice_chars(s: &[char], from: usize, to: usize) -> (r: Vec<char>)
    requires
        from <= to <= s@.len(),
    ensures
        r@ == s@.subrange(from as int, to as int),
{
    let mut r: Vec<char> = Vec::new();
    let mut i = from;
    while i < to
        invariant
            from <= i <= to <= s@.len(),
            r@ == s@.subrange(from as int, i as int),
        decreases to - i,
    {
        r.push(s[i]);
        i = i + 1;
        assert(r@ =~= s@.subrange(from as int, i as int));
    }
    r
}

/// `str::split` with a non-empty separator, each piece as a character vector.
pub fn split(s: &[char], sep: &[char]) -> (r: Vec<Vec<char>>)
    requires
        sep@.len() > 0,
    ensures
        r@.len() == split_seq(s@, sep@).len(),
        forall|i: int| 0 <= i < r@.len() ==> #[trigger] r@[i]@ == split_seq(s@, sep@)[i],
{
    let mut out: Vec<Vec<char>> = Vec::new();
    let mut start: usize = 0;
    proof {
        assert(s@.subrange(0, s@.len() as int) =~= s@);
    }
    loop
        invariant
            sep@.len() > 0,
            s@.len() == s.len(),
            sep@.len() == sep.len(),
            start <= s@.len(),
            forall|i: int| 0 <= i < out@.len() ==> #[trigger] out@[i]@ == split_seq(s@, sep@)[i],
            split_seq(s@, sep@) =~= out@.map_values(|v: Vec<char>| v@) + split_seq(
                s@.subrange(start as int, s@.len() as int),
                sep@,
            ),
        decreases s@.len() - start,
    {
        let ghost rest = s@.subrange(start as int, s@.len() as int);
        let found = find_from(s, sep, start);
        proof {
            lemma_first_occurrence(rest, sep@);
        }
        match found {
            None => {
                proof {
                    assert forall|j: int| !occurs_at(rest, sep@, j) by {
                        if occurs_at(rest, sep@, j) {
                            assert(rest.subrange(j, j + sep@.len()) =~= s@.subrange(
                                start + j,
                                start + j + sep@.len(),
                            ));
                            assert(occurs_at(s@, sep@, start + j));
                        }
                    }
                }
                let piece = slice_chars(s, start, s.len());
                let ghost before = out@;
                out.push(piece);
                proof {
                    assert(split_seq(rest, sep@) =~= seq![rest]);
                    assert(out@.map_values(|v: Vec<char>| v@) =~= before.map_values(
                        |v: Vec<char>| v@,
                    ).push(rest));
                    assert forall|i: int| 0 <= i < out@.len() implies #[trigger] out@[i]@
                        == split_seq(s@, sep@)[i] by {
                        if i < before.len() {
                            assert(out@[i] == before[i]);
                        } else {
                            assert(split_seq(s@, sep@)[i] == (before.map_values(
                                |v: Vec<char>| v@,
                            ) + seq![rest])[i]);
                        }
                    }
                }
                return out;
            },
            Some(i) => {
                let ghost k = i - start;
                proof {
                    assert(occurs_at(rest, sep@, k)) by {
                        assert(rest.subrange(k, k + sep@.len()) =~= s@.subrange(
                            i as int,
                            i + sep@.len(),
                        ));
                    }
                    assert forall|j: int| 0 <= j < k implies !occurs_at(rest, sep@, j) by {
                        if occurs_at(rest, sep@, j) {
                            assert(rest.subrange(j, j + sep@.len()) =~= s@.subrange(
                                start + j,
                                start + j + sep@.len(),
                            ));
                            assert(occurs_at(s@, sep@, start + j));
                        }
                    }
                    let fo = first_occurrence(rest, sep@);
                    assert(fo == Some(k)) by {
                        match fo {
                            Some(m) => {
                                if m < k {
                                } else if m > k {
                                }
                            },
                            None => {},
                        }
                    }
                }
                let piece = slice_chars(s, start, i);
                let ghost before = out@;
                out.push(piece);
                assert(occurs_at(s@, sep@, i as int));
                let next = i + sep.len();
                proof {
                    assert(rest.subrange(0, k) =~= s@.subrange(start as int, i as int));
                    assert(rest.subrange(k + sep@.len(), rest.len() as int) =~= s@.subrange(
                        next as int,
                        s@.len() as int,
                    ));
                    assert(split_seq(rest, sep@) =~= seq![s@.subrange(start as int, i as int)]
                        + split_seq(s@.subrange(next as int, s@.len() as int), sep@));
                    assert(out@.map_values(|v: Vec<char>| v@) =~= before.map_values(
                        |v: Vec<char>| v@,
                    ).push(s@.subrange(start as int, i as int)));
                    assert forall|j: int| 0 <= j < out@.len() implies #[trigger] out@[j]@
                        == split_seq(s@, sep@)[j] by {
                        if j < before.len() {
                            assert(out@[j] == before[j]);
                        } else {
                            assert(split_seq(s@, sep@)[j] == (before.map_values(
                                |v: Vec<char>| v@,
                            ) + (seq![s@.subrange(start as int, i as int)] + split_seq(
                                s@.subrange(next as int, s@.len() as int),
                                sep@,
                            )))[j]);
                        }
                    }
                }
                start = next;
            },
        }
    }
}

/// `str::trim`.
pub fn trim(s: &[char]) -> (r: Vec<char>)
    ensures
        r@ == trim_seq(s@),
{
    let mut lo: usize = 0;
    proof {
        assert(s@.subrange(0, s@.len() as int) =~= s@);
    }
    while lo < s.len() && is_whitespace_char(s[lo])
        invariant
            lo <= s@.len(),
            leading_ws(s@) == lo + leading_ws(s@.subrange(lo as int, s@.len() as int)),
        decreases s@.len() - lo,
    {
        proof {
            let t = s@.subrange(lo as int, s@.len() as int);
            assert(t.drop_first() =~= s@.subrange(lo + 1, s@.len() as int));
        }
        lo = lo + 1;
    }
    proof {
        let t = s@.subrange(lo as int, s@.len() as int);
        if t.len() > 0 {
            assert(t[0] == s@[lo as int]);
        }
        assert(leading_ws(t) == 0);
    }
    let mut hi: usize = s.len();
    let ghost t = s@.subrange(lo as int, s@.len() as int);
    while hi > lo && is_whitespace_char(s[hi - 1])
        invariant
            lo <= hi <= s@.len(),
            t == s@.subrange(lo as int, s@.len() as int),
            trailing_ws(t) == (s@.len() - hi) + trailing_ws(s@.subrange(lo as int, hi as int)),
        decreases hi - lo,
    {
        proof {
            let u = s@.subrange(lo as int, hi as int);
            assert(u.drop_last() =~= s@.subrange(lo as int, hi - 1));
        }
        hi = hi - 1;
    }
    proof {
        let u = s@.subrange(lo as int, hi as int);
        if u.len() > 0 {
            assert(u.last() == s@[hi - 1]);
        }
        assert(trailing_ws(u) == 0);
        assert(t.subrange(0, t.len() - trailing_ws(t)) =~= u);
    }
    slice_chars(s, lo, hi)
}

/// `char::is_whitespace`.
pub fn is_whitespace_char(c: char) -> (r: bool)
    ensures
        r == is_whitespace(c),
{
    let u = c as u32;
    (0x09 <= u && u <= 0x0d) || u == 0x20 || u == 0x85 || u == 0xa0 || u == 0x1680 || (0x2000
        <= u && u <= 0x200a) || u == 0x2028 || u == 0x2029 || u == 0x202f || u == 0x205f || u
        == 0x3000
}

/// Removes every occurrence of one character.
pub fn without_char(s: &[char], c: char) -> (r: Vec<char>)
    ensures
        r@ == remove_char(s@, c),
{
    let mut r: Vec<char> = Vec::new();
    let mut i: usize = 0;
    while i < s.len()
        invariant
            i <= s@.len(),
            r@ == remove_char(s@.subrange(0, i as int), c),
        decreases s@.len() - i,
    {
        proof {
            let p = s@.subrange(0, i + 1);
            assert(p.drop_last() =~= s@.subrange(0, i as int));
            reveal_with_fuel(Seq::filter, 1);
        }
        if s[i] != c {
            r.push(s[i]);
        }
        i = i + 1;
    }
    proof {
        assert(s@.subrange(0, s@.len() as int) =~= s@);
    }
    r
}

/// `str::replace`.
pub fn replace(s: &[char], from: &[char], to: &[char]) -> (r: Vec<char>)
    ensures
        r@ == replace_seq(s@, from@, to@),
{
    let mut r: Vec<char> = Vec::new();
    let mut i: usize = 0;
    proof {
        assert(s@.subrange(0, s@.len() as int) =~= s@);
    }
    if from.len() == 0 {
        while i < s.len()
            invariant
                i <= s@.len(),
                from@.len() == 0,
                replace_seq(s@, from@, to@) == r@ + replace_empty(
                    s@.subrange(i as int, s@.len() as int),
                    to@,
                ),
            decreases s@.len() - i,
        {
            let ghost rest = s@.subrange(i as int, s@.len() as int);
            proof {
                assert(rest.drop_first() =~= s@.subrange(i + 1, s@.len() as int));
                assert(r@ + replace_empty(rest, to@) =~= r@ + to@ + seq![s@[i as int]]
                    + replace_empty(rest.drop_first(), to@));
            }
            let mut k: usize = 0;
            let ghost r0 = r@;
            while k < to.len()
                invariant
                    k <= to@.len(),
                    r@ == r0 + to@.subrange(0, k as int),
                decreases to@.len() - k,
            {
                r.push(to[k]);
                k = k + 1;
                proof {
                    assert(r@ =~= r0 + to@.subrange(0, k as int));
                }
            }
            proof {
                assert(to@.subrange(0, to@.len() as int) =~= to@);
            }
            r.push(s[i]);
            i = i + 1;
            proof {
                assert(r@ + replace_empty(s@.subrange(i as int, s@.len() as int), to@) =~= r0
                    + to@ + seq![s@[i - 1]] + replace_empty(rest.drop_first(), to@));
            }
        }
        let mut k: usize = 0;
        let ghost r0 = r@;
        while k < to.len()
            invariant
                k <= to@.len(),
                r@ == r0 + to@.subrange(0, k as int),
            decreases to@.len() - k,
        {
            r.push(to[k]);
            k = k + 1;
            proof {
                assert(r@ =~= r0 + to@.subrange(0, k as int));
            }
        }
        proof {
            assert(to@.subrange(0, to@.len() as int) =~= to@);
            assert(s@.subrange(i as int, s@.len() as int) =~= Seq::<char>::empty());
        }
        return r;
    }
    while i < s.len()
        invariant
            i <= s@.len(),
            from@.len() > 0,
            replace_seq(s@, from@, to@) == r@ + replace_seq(
                s@.subrange(i as int, s@.len() as int),
                from@,
                to@,
            ),
        decreases s@.len() - i,
    {
        let ghost rest = s@.subrange(i as int, s@.len() as int);
        if matches_at(s, from, i) {
            proof {
                assert(rest.subrange(0, from@.len() as int) =~= s@.subrange(
                    i as int,
                    i + from@.len(),
                ));
                assert(rest.subrange(from@.len() as int, rest.len() as int) =~= s@.subrange(
                    i + from@.len(),
                    s@.len() as int,
                ));
            }
            let mut k: usize = 0;
            let ghost r0 = r@;
            while k < to.len()
                invariant
                    k <= to@.len(),
                    r@ == r0 + to@.subrange(0, k as int),
                decreases to@.len() - k,
            {
                r.push(to[k]);
                k = k + 1;
                proof {
                    assert(r@ =~= r0 + to@.subrange(0, k as int));
                }
            }
            proof {
                assert(to@.subrange(0, to@.len() as int) =~= to@);
                assert(r0 + (to@ + replace_seq(
                    s@.subrange(i + from@.len(), s@.len() as int),
                    from@,
                    to@,
                )) =~= r@ + replace_seq(
                    s@.subrange(i + from@.len(), s@.len() as int),
                    from@,
                    to@,
                ));
            }
            i = i + from.len();
        } else {
            proof {
                if starts_with(rest, from@) {
                    assert(rest.subrange(0, from@.len() as int) =~= s@.subrange(
                        i as int,
                        i + from@.len(),
                    ));
                }
                assert(rest.drop_first() =~= s@.subrange(i + 1, s@.len() as int));
            }
            let ghost r0 = r@;
            r.push(s[i]);
            i = i + 1;
            proof {
                assert(r0 + (seq![s@[i - 1]] + replace_seq(rest.drop_first(), from@, to@))
                    =~= r@ + replace_seq(s@.subrange(i as int, s@.len() as int), from@, to@));
            }
        }
    }
    proof {
        let e = s@.subrange(i as int, s@.len() as int);
        assert(e.len() == 0);
        if starts_with(e, from@) {
        }
        assert(replace_seq(e, from@, to@) == e);
        assert(r@ + e =~= r@);
    }
    r
}

/// `str::rfind`: the last occurrence of `needle` in `hay`.
pub fn rfind(hay: &[char], needle: &[char]) -> (r: Option<usize>)
    ensures
        r matches Some(i) ==> last_occurrence(hay@, needle@) == Some(i as int),
        r is None ==> last_occurrence(hay@, needle@) is None,
{
    if needle.len() > hay.len() {
        assert forall|j: int| !occurs_at(hay@, needle@, j) by {}
        return None;
    }
    let mut i: usize = hay.len() - needle.len();
    loop
        invariant
            needle@.len() <= hay@.len(),
            i + needle@.len() <= hay@.len(),
            forall|j: int| i < j ==> !occurs_at(hay@, needle@, j),
        decreases i,
    {
        if matches_at(hay, needle, i) {
            proof {
                let w = choose|k: int| occurs_at(hay@, needle@, k) && forall|j: int| k < j ==> !occurs_at(hay@, needle@, j);
                assert(occurs_at(hay@, needle@, i as int) && forall|j: int| i < j ==> !occurs_at(hay@, needle@, j));
                if w < i {
                } else if w > i {
                }
            }
            return Some(i);
        }
        if i == 0 {
            assert forall|j: int| !occurs_at(hay@, needle@, j) by {
                if j < 0 {
                }
            }
            return None;
        }
        i = i - 1;
    }
}

/// Whether two character vectors are equal.
pub fn same_chars(a: &Vec<char>, b: &Vec<char>) -> (r: bool)
    ensures
        r == (a@ == b@),
{
    if a.len() != b.len() {
        return false;
    }
    let mut i: usize = 0;
    while i < a.len()
        invariant
            i <= a@.len(),
            a@.len() == b@.len(),
            forall|k: int| 0 <= k < i ==> a@[k] == b@[k],
        decreases a@.len() - i,
    {
        if a[i] != b[i] {
            return false;
        }
        i = i + 1;
    }
    assert(a@ =~= b@);
    true
}

} // verus!
