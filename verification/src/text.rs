//! Character-level text helpers shared by the backend parsers: first-match
//! searches, substring containment, and splitting raw command output into
//! lines.

use vstd::prelude::*;
use vstd::string::StrSliceExecFns;
use vstd::string::StringExecFns;

verus! {

/// Whitespace as the parsers understand it: the Unicode white-space set.
pub open spec fn is_space(c: char) -> bool {
    ||| c == ' '
    ||| c == '\t'
    ||| c == '\n'
    ||| c == '\u{b}'
    ||| c == '\u{c}'
    ||| c == '\r'
    ||| c == '\u{85}'
    ||| c == '\u{a0}'
    ||| c == '\u{1680}'
    ||| c == '\u{2000}'
    ||| c == '\u{2001}'
    ||| c == '\u{2002}'
    ||| c == '\u{2003}'
    ||| c == '\u{2004}'
    ||| c == '\u{2005}'
    ||| c == '\u{2006}'
    ||| c == '\u{2007}'
    ||| c == '\u{2008}'
    ||| c == '\u{2009}'
    ||| c == '\u{200a}'
    ||| c == '\u{2028}'
    ||| c == '\u{2029}'
    ||| c == '\u{202f}'
    ||| c == '\u{205f}'
    ||| c == '\u{3000}'
}

/// Decides whitespace exactly as `is_space` defines it.
pub fn is_space_char(c: char) -> (r: bool)
    ensures
        r == is_space(c),
{
    c == ' ' || c == '\t' || c == '\n' || c == '\u{b}' || c == '\u{c}' || c == '\r' || c
        == '\u{85}' || c == '\u{a0}' || c == '\u{1680}' || c == '\u{2000}' || c == '\u{2001}' || c
        == '\u{2002}' || c == '\u{2003}' || c == '\u{2004}' || c == '\u{2005}' || c == '\u{2006}'
        || c == '\u{2007}' || c == '\u{2008}' || c == '\u{2009}' || c == '\u{200a}' || c
        == '\u{2028}' || c == '\u{2029}' || c == '\u{202f}' || c == '\u{205f}' || c == '\u{3000}'
}

/// The index of the first character satisfying `p`, if any.
pub open spec fn spec_find_by(s: Seq<char>, p: spec_fn(char) -> bool) -> Option<int>
    decreases s.len(),
{
    if s.len() == 0 {
        None
    } else if p(s[0]) {
        Some(0int)
    } else {
        match spec_find_by(s.drop_first(), p) {
            None => None,
            Some(i) => Some(i + 1),
        }
    }
}

/// What `spec_find_by` returns: the first index satisfying `p`, with nothing
/// satisfying `p` before it; `None` exactly when no character satisfies `p`.
pub proof fn lemma_find_by(s: Seq<char>, p: spec_fn(char) -> bool)
    ensures
        match spec_find_by(s, p) {
            Some(i) => 0 <= i < s.len() && p(s[i]) && (forall|j: int|
                0 <= j < i ==> !p(#[trigger] s[j])),
            None => forall|j: int| 0 <= j < s.len() ==> !p(#[trigger] s[j]),
        },
    decreases s.len(),
{
    if s.len() > 0 && !p(s[0]) {
        lemma_find_by(s.drop_first(), p);
        match spec_find_by(s.drop_first(), p) {
            Some(i) => {
                assert(s.drop_first()[i] == s[i + 1]);
                assert forall|j: int| 0 <= j < i + 1 implies !p(#[trigger] s[j]) by {
                    if j > 0 {
                        assert(s.drop_first()[j - 1] == s[j]);
                    }
                }
            },
            None => {
                assert forall|j: int| 0 <= j < s.len() implies !p(#[trigger] s[j]) by {
                    if j > 0 {
                        assert(s.drop_first()[j - 1] == s[j]);
                    }
                }
            },
        }
    }
}

/// A witness at `k` with nothing satisfying `p` before it pins the find down.
pub proof fn lemma_find_by_is(s: Seq<char>, p: spec_fn(char) -> bool, k: int)
    requires
        0 <= k < s.len(),
        p(s[k]),
        forall|j: int| 0 <= j < k ==> !p(#[trigger] s[j]),
    ensures
        spec_find_by(s, p) == Some(k),
{
    lemma_find_by(s, p);
    match spec_find_by(s, p) {
        Some(i) => {
            if i < k {
                assert(!p(s[i]));
            }
            if k < i {
                assert(!p(s[k]));
            }
        },
        None => {
            assert(!p(s[k]));
        },
    }
}

/// When no character satisfies `p`, the find comes back empty.
pub proof fn lemma_find_by_none(s: Seq<char>, p: spec_fn(char) -> bool)
    requires
        forall|j: int| 0 <= j < s.len() ==> !p(#[trigger] s[j]),
    ensures
        spec_find_by(s, p) is None,
{
    lemma_find_by(s, p);
    match spec_find_by(s, p) {
        Some(i) => {
            assert(!p(s[i]));
        },
        None => {},
    }
}

/// A witness at absolute index `k` pins down the find on the suffix of `s`
/// that starts at `from`.
pub proof fn lemma_find_by_skip(s: Seq<char>, p: spec_fn(char) -> bool, from: int, k: int)
    requires
        0 <= from <= k < s.len(),
        p(s[k]),
        forall|j: int| from <= j < k ==> !p(#[trigger] s[j]),
    ensures
        spec_find_by(s.skip(from), p) == Some(k - from),
{
    let t = s.skip(from);
    assert forall|j: int| 0 <= j < k - from implies !p(#[trigger] t[j]) by {
        assert(t[j] == s[j + from]);
    }
    assert(t[k - from] == s[k]);
    lemma_find_by_is(t, p, k - from);
}

/// With nothing satisfying `p` at or after `from`, the find on the suffix of
/// `s` that starts at `from` comes back empty.
pub proof fn lemma_find_by_skip_none(s: Seq<char>, p: spec_fn(char) -> bool, from: int)
    requires
        0 <= from <= s.len(),
        forall|j: int| from <= j < s.len() ==> !p(#[trigger] s[j]),
    ensures
        spec_find_by(s.skip(from), p) is None,
{
    let t = s.skip(from);
    assert forall|j: int| 0 <= j < t.len() implies !p(#[trigger] t[j]) by {
        assert(t[j] == s[j + from]);
    }
    lemma_find_by_none(t, p);
}

/// A witness below `bound` pins down the find on the prefix of `s` of length
/// `bound`.
pub proof fn lemma_find_by_take(s: Seq<char>, p: spec_fn(char) -> bool, bound: int, k: int)
    requires
        0 <= k < bound <= s.len(),
        p(s[k]),
        forall|j: int| 0 <= j < k ==> !p(#[trigger] s[j]),
    ensures
        spec_find_by(s.take(bound), p) == Some(k),
{
    let t = s.take(bound);
    assert forall|j: int| 0 <= j < k implies !p(#[trigger] t[j]) by {
        assert(t[j] == s[j]);
    }
    assert(t[k] == s[k]);
    lemma_find_by_is(t, p, k);
}

/// The predicate that matches one given character.
pub open spec fn char_p(c: char) -> spec_fn(char) -> bool {
    |x: char| x == c
}

/// The predicate that matches whitespace.
pub open spec fn space_p() -> spec_fn(char) -> bool {
    |x: char| is_space(x)
}

/// The predicate that matches anything but whitespace.
pub open spec fn nonspace_p() -> spec_fn(char) -> bool {
    |x: char| !is_space(x)
}

/// The index of the first occurrence of `c`, if any.
pub open spec fn spec_find_char(s: Seq<char>, c: char) -> Option<int> {
    spec_find_by(s, char_p(c))
}

/// The index of the first whitespace character, if any.
pub open spec fn spec_find_space(s: Seq<char>) -> Option<int> {
    spec_find_by(s, space_p())
}

/// The index of the first non-whitespace character, if any.
pub open spec fn spec_find_nonspace(s: Seq<char>) -> Option<int> {
    spec_find_by(s, nonspace_p())
}

/// Finds the first occurrence of `c` at or after `from`.
pub fn find_char_from(l: &str, from: usize, c: char) -> (r: Option<usize>)
    requires
        from <= l@.len(),
    ensures
        match r {
            Some(k) => from <= k < l@.len() && l@[k as int] == c && (forall|j: int|
                from <= j < k ==> #[trigger] l@[j] != c),
            None => forall|j: int| from <= j < l@.len() ==> #[trigger] l@[j] != c,
        },
{
    let n = l.unicode_len();
    let mut k = from;
    while k < n
        invariant
            from <= k <= n,
            n == l@.len(),
            forall|j: int| from <= j < k ==> #[trigger] l@[j] != c,
        decreases n - k,
    {
        if l.get_char(k) == c {
            return Some(k);
        }
        k += 1;
    }
    None
}

/// Finds the first whitespace character at or after `from`.
pub fn find_space_from(l: &str, from: usize) -> (r: Option<usize>)
    requires
        from <= l@.len(),
    ensures
        match r {
            Some(k) => from <= k < l@.len() && is_space(l@[k as int]) && (forall|j: int|
                from <= j < k ==> !is_space(#[trigger] l@[j])),
            None => forall|j: int| from <= j < l@.len() ==> !is_space(#[trigger] l@[j]),
        },
{
    let n = l.unicode_len();
    let mut k = from;
    while k < n
        invariant
            from <= k <= n,
            n == l@.len(),
            forall|j: int| from <= j < k ==> !is_space(#[trigger] l@[j]),
        decreases n - k,
    {
        if is_space_char(l.get_char(k)) {
            return Some(k);
        }
        k += 1;
    }
    None
}

/// Finds the first non-whitespace character at or after `from`.
pub fn find_nonspace_from(l: &str, from: usize) -> (r: Option<usize>)
    requires
        from <= l@.len(),
    ensures
        match r {
            Some(k) => from <= k < l@.len() && !is_space(l@[k as int]) && (forall|j: int|
                from <= j < k ==> is_space(#[trigger] l@[j])),
            None => forall|j: int| from <= j < l@.len() ==> is_space(#[trigger] l@[j]),
        },
{
    let n = l.unicode_len();
    let mut k = from;
    while k < n
        invariant
            from <= k <= n,
            n == l@.len(),
            forall|j: int| from <= j < k ==> is_space(#[trigger] l@[j]),
        decreases n - k,
    {
        if !is_space_char(l.get_char(k)) {
            return Some(k);
        }
        k += 1;
    }
    None
}

/// `needle` occurs in `hay` starting at index `k`.
pub open spec fn match_at(hay: Seq<char>, needle: Seq<char>, k: int) -> bool {
    0 <= k && k + needle.len() <= hay.len() && hay.subrange(k, k + needle.len() as int) == needle
}

/// `needle` occurs somewhere in `hay`.
pub open spec fn contains_seq(hay: Seq<char>, needle: Seq<char>) -> bool {
    exists|k: int| match_at(hay, needle, k)
}

/// Compares `needle` against `hay` at offset `k`.
fn match_at_exec(hay: &str, needle: &str, k: usize) -> (r: bool)
    requires
        k + needle@.len() <= hay@.len(),
    ensures
        r == match_at(hay@, needle@, k as int),
{
    let hn = hay.unicode_len();
    let nn = needle.unicode_len();
    let mut j: usize = 0;
    while j < nn
        invariant
            j <= nn,
            nn == needle@.len(),
            hn == hay@.len(),
            k + nn <= hn,
            forall|j2: int| 0 <= j2 < j ==> hay@[k + j2] == needle@[j2],
        decreases nn - j,
    {
        if hay.get_char(k + j) != needle.get_char(j) {
            proof {
                assert(hay@.subrange(k as int, k + nn as int)[j as int] == hay@[k + j]);
            }
            return false;
        }
        j += 1;
    }
    proof {
        assert(hay@.subrange(k as int, k + nn as int) =~= needle@);
    }
    true
}

/// Decides whether `needle` occurs as a substring of `hay`.
pub fn contains_sub(hay: &str, needle: &str) -> (r: bool)
    ensures
        r == contains_seq(hay@, needle@),
{
    let hn = hay.unicode_len();
    let nn = needle.unicode_len();
    if nn > hn {
        proof {
            assert forall|k: int| !match_at(hay@, needle@, k) by {}
        }
        return false;
    }
    if nn == 0 {
        proof {
            assert(hay@.subrange(0, 0) =~= needle@);
            assert(match_at(hay@, needle@, 0));
        }
        return true;
    }
    let mut k: usize = 0;
    while k <= hn - nn
        invariant
            1 <= nn <= hn,
            hn == hay@.len(),
            nn == needle@.len(),
            k <= hn - nn + 1,
            forall|k2: int| 0 <= k2 < k ==> !match_at(hay@, needle@, k2),
        decreases hn - nn + 1 - k,
    {
        if match_at_exec(hay, needle, k) {
            proof {
                assert(match_at(hay@, needle@, k as int));
            }
            return true;
        }
        k += 1;
    }
    proof {
        assert forall|k2: int| !match_at(hay@, needle@, k2) by {
            if 0 <= k2 <= hn - nn {
                assert(!match_at(hay@, needle@, k2));
            }
        }
    }
    false
}

/// The lines of `t`: the segments before each `'\n'` terminator, a `'\r'`
/// immediately before the terminator stripped, and a final unterminated
/// segment kept only when it is non-empty (there it keeps any `'\r'`).
pub open spec fn spec_lines(t: Seq<char>) -> Seq<Seq<char>>
    decreases t.len(),
    via spec_lines_decreases
{
    if t.len() == 0 {
        Seq::empty()
    } else {
        match spec_find_char(t, '\n') {
            None => seq![t],
            Some(i) => seq![
                if i > 0 && t[i - 1] == '\r' {
                    t.take(i - 1)
                } else {
                    t.take(i)
                },
            ] + spec_lines(t.skip(i + 1)),
        }
    }
}

#[via_fn]
proof fn spec_lines_decreases(t: Seq<char>) {
    if t.len() > 0 {
        lemma_find_by(t, char_p('\n'));
    }
}

/// Splits raw command output into its lines, exactly as `spec_lines` reads
/// them: `'\n'` (or `"\r\n"`) ends a line, and a final unterminated segment
/// is kept only when it is non-empty.
pub fn split_lines(t: &str) -> (r: Vec<String>)
    ensures
        r@.map_values(|s: String| s@) == spec_lines(t@),
{
    let n = t.unicode_len();
    let mut res: Vec<String> = Vec::new();
    let mut start: usize = 0;
    let mut i: usize = 0;
    proof {
        assert(t@.skip(0) =~= t@);
        assert(res@.map_values(|s: String| s@) =~= Seq::<Seq<char>>::empty());
        assert(Seq::<Seq<char>>::empty() + spec_lines(t@) =~= spec_lines(t@));
    }
    while i < n
        invariant
            start <= i <= n,
            n == t@.len(),
            forall|j: int| start <= j < i ==> #[trigger] t@[j] != '\n',
            res@.map_values(|s: String| s@) + spec_lines(t@.skip(start as int)) == spec_lines(t@),
        decreases n - i,
    {
        if t.get_char(i) == '\n' {
            let end = if i > start && t.get_char(i - 1) == '\r' {
                i - 1
            } else {
                i
            };
            let line = t.substring_char(start, end);
            let ghost old_map = res@.map_values(|s: String| s@);
            res.push(String::from_str(line));
            proof {
                let s = t@.skip(start as int);
                assert forall|j: int| 0 <= j < i - start implies !(char_p('\n'))(
                    #[trigger] s[j],
                ) by {
                    assert(s[j] == t@[j + start]);
                }
                assert((char_p('\n'))(s[i - start])) by {
                    assert(s[i - start] == t@[i as int]);
                }
                lemma_find_by_is(s, char_p('\n'), i - start);
                if i > start {
                    assert(s[i - start - 1] == t@[i - 1]);
                }
                assert(s.take(end - start) =~= t@.subrange(start as int, end as int));
                assert(s.skip(i - start + 1) =~= t@.skip(i + 1));
                assert(spec_lines(s) == seq![t@.subrange(start as int, end as int)] + spec_lines(
                    t@.skip(i + 1),
                ));
                assert(res@.map_values(|s2: String| s2@) =~= old_map.push(
                    t@.subrange(start as int, end as int),
                ));
                assert(res@.map_values(|s2: String| s2@) + spec_lines(t@.skip(i + 1)) =~= old_map
                    + spec_lines(s));
            }
            start = i + 1;
        }
        i += 1;
    }
    if start < n {
        let line = t.substring_char(start, n);
        let ghost old_map = res@.map_values(|s: String| s@);
        res.push(String::from_str(line));
        proof {
            let s = t@.skip(start as int);
            assert forall|j: int| 0 <= j < s.len() implies !(char_p('\n'))(#[trigger] s[j]) by {
                assert(s[j] == t@[j + start]);
            }
            lemma_find_by_none(s, char_p('\n'));
            assert(s =~= t@.subrange(start as int, n as int));
            assert(spec_lines(s) == seq![s]);
            assert(res@.map_values(|s2: String| s2@) =~= old_map.push(s));
            assert(res@.map_values(|s2: String| s2@) =~= old_map + spec_lines(s));
        }
    } else {
        proof {
            let s = t@.skip(start as int);
            assert(s =~= Seq::<char>::empty());
            assert(spec_lines(s) =~= Seq::<Seq<char>>::empty());
            assert(res@.map_values(|s2: String| s2@) + spec_lines(s) =~= res@.map_values(
                |s2: String| s2@,
            ));
        }
    }
    res
}

} // verus!
