//! One parsing strategy per backend, turning raw listing output into package
//! records line by line.  Lines that do not match a backend's expected shape
//! are silently dropped; headers and empty output never fail.

use vstd::prelude::*;
use vstd::string::StrSliceExecFns;
use vstd::string::StringExecFns;

use crate::backend::PackageManager;
use crate::package::{packages_of, Package, SpecPackage};
use crate::text::{
    char_p, contains_seq, contains_sub, find_char_from, find_nonspace_from, find_space_from,
    is_space, lemma_find_by, lemma_find_by_is, lemma_find_by_none, lemma_find_by_skip,
    lemma_find_by_skip_none, lemma_find_by_take, nonspace_p, space_p,
    spec_find_char, spec_find_nonspace, spec_find_space, spec_lines, split_lines,
};

verus! {

/// The segment of `l` between its first `/` (at index `i`) and its second
/// `/`, or everything after the first `/` when there is no second one.
pub open spec fn slash_second_field(l: Seq<char>, i: int) -> Seq<char> {
    let rest = l.skip(i + 1);
    match spec_find_char(rest, '/') {
        None => rest,
        Some(j) => rest.take(j),
    }
}

/// PkgTool lines have the form `name/version`: the name is everything before
/// the first `/`, the version the raw segment up to the next `/` or the end.
/// A line without `/` is dropped.
pub open spec fn spec_parse_pkg_line(l: Seq<char>) -> Option<SpecPackage> {
    match spec_find_char(l, '/') {
        None => None,
        Some(i) => Some(SpecPackage { name: l.take(i), version: slash_second_field(l, i) }),
    }
}

/// The AptTool version token: the part of the second `/`-field before its
/// first whitespace character.
pub open spec fn apt_version_token(l: Seq<char>, i: int) -> Seq<char> {
    let f1 = slash_second_field(l, i);
    match spec_find_space(f1) {
        None => f1,
        Some(k) => f1.take(k),
    }
}

/// AptTool lines have the form `name/version-and-suffixes ...`: the name is
/// everything before the first `/`, the version the first whitespace token of
/// the second `/`-field.  Lines without `/`, or whose version token is empty,
/// are dropped.
pub open spec fn spec_parse_apt_line(l: Seq<char>) -> Option<SpecPackage> {
    match spec_find_char(l, '/') {
        None => None,
        Some(i) => {
            let v = apt_version_token(l, i);
            if v.len() == 0 {
                None
            } else {
                Some(SpecPackage { name: l.take(i), version: v })
            }
        },
    }
}

/// Where the whitespace token starting at the front of `s` ends.
pub open spec fn token_end(s: Seq<char>) -> int {
    match spec_find_space(s) {
        None => s.len() as int,
        Some(k) => k,
    }
}

/// PipTool lines are whitespace-separated columns: the first is the name, the
/// second the version, anything after is ignored.  Header and separator rows
/// (containing `Package` or `---`) and lines with fewer than two columns are
/// dropped.
pub open spec fn spec_parse_pip_line(l: Seq<char>) -> Option<SpecPackage> {
    if contains_seq(l, "Package"@) || contains_seq(l, "---"@) {
        None
    } else {
        match spec_find_nonspace(l) {
            None => None,
            Some(a) => {
                let s1 = l.skip(a);
                let e1 = token_end(s1);
                let s2 = s1.skip(e1);
                match spec_find_nonspace(s2) {
                    None => None,
                    Some(b) => {
                        let s3 = s2.skip(b);
                        Some(
                            SpecPackage {
                                name: s1.take(e1),
                                version: s3.take(token_end(s3)),
                            },
                        )
                    },
                }
            },
        }
    }
}

/// The line parser of the given backend.
pub open spec fn spec_parse_line(pm: PackageManager, l: Seq<char>) -> Option<SpecPackage> {
    match pm {
        PackageManager::Pkg => spec_parse_pkg_line(l),
        PackageManager::Apt => spec_parse_apt_line(l),
        PackageManager::Pip => spec_parse_pip_line(l),
    }
}

/// The packages the given lines yield, in line order, accepted lines only.
pub open spec fn spec_parse_lines(pm: PackageManager, lines: Seq<Seq<char>>) -> Seq<SpecPackage>
    decreases lines.len(),
{
    if lines.len() == 0 {
        Seq::empty()
    } else {
        spec_parse_lines(pm, lines.drop_last()) + (match spec_parse_line(pm, lines.last()) {
            Some(p) => seq![p],
            None => Seq::empty(),
        })
    }
}

/// The packages that raw listing output yields for the given backend.
pub open spec fn spec_parse_listing(pm: PackageManager, t: Seq<char>) -> Seq<SpecPackage> {
    spec_parse_lines(pm, spec_lines(t))
}

/// Parses one PkgTool listing line.
pub fn parse_pkg_line(l: &str) -> (r: Option<Package>)
    ensures
        match r {
            Some(p) => spec_parse_pkg_line(l@) == Some(p@),
            None => spec_parse_pkg_line(l@) is None,
        },
{
    let n = l.unicode_len();
    match find_char_from(l, 0, '/') {
        None => {
            proof {
                assert forall|j: int| 0 <= j < l@.len() implies !(char_p('/'))(
                    #[trigger] l@[j],
                ) by {}
                lemma_find_by_none(l@, char_p('/'));
            }
            None
        },
        Some(i) => {
            let name = String::from_str(l.substring_char(0, i));
            let vend = match find_char_from(l, i + 1, '/') {
                None => n,
                Some(j) => j,
            };
            let version = String::from_str(l.substring_char(i + 1, vend));
            proof {
                assert forall|j: int| 0 <= j < i implies !(char_p('/'))(#[trigger] l@[j]) by {}
                lemma_find_by_is(l@, char_p('/'), i as int);
                let rest = l@.skip(i + 1);
                if vend < n {
                    assert forall|j: int| i + 1 <= j < vend implies !(char_p('/'))(
                        #[trigger] l@[j],
                    ) by {}
                    lemma_find_by_skip(l@, char_p('/'), i + 1, vend as int);
                    assert(rest.take(vend - (i + 1)) =~= l@.subrange(i + 1, vend as int));
                } else {
                    assert forall|j: int| i + 1 <= j < l@.len() implies !(char_p('/'))(
                        #[trigger] l@[j],
                    ) by {}
                    lemma_find_by_skip_none(l@, char_p('/'), i + 1);
                    assert(rest =~= l@.subrange(i + 1, n as int));
                }
                assert(l@.take(i as int) =~= l@.subrange(0, i as int));
            }
            Some(Package { name, version })
        },
    }
}

/// Parses one AptTool listing line.
pub fn parse_apt_line(l: &str) -> (r: Option<Package>)
    ensures
        match r {
            Some(p) => spec_parse_apt_line(l@) == Some(p@),
            None => spec_parse_apt_line(l@) is None,
        },
{
    let n = l.unicode_len();
    match find_char_from(l, 0, '/') {
        None => {
            proof {
                assert forall|j: int| 0 <= j < l@.len() implies !(char_p('/'))(
                    #[trigger] l@[j],
                ) by {}
                lemma_find_by_none(l@, char_p('/'));
            }
            None
        },
        Some(i) => {
            proof {
                assert forall|j: int| 0 <= j < i implies !(char_p('/'))(#[trigger] l@[j]) by {}
                lemma_find_by_is(l@, char_p('/'), i as int);
            }
            let f1end = match find_char_from(l, i + 1, '/') {
                None => n,
                Some(j) => j,
            };
            proof {
                let rest = l@.skip(i + 1);
                if f1end < n {
                    assert forall|j: int| i + 1 <= j < f1end implies !(char_p('/'))(
                        #[trigger] l@[j],
                    ) by {}
                    lemma_find_by_skip(l@, char_p('/'), i + 1, f1end as int);
                } else {
                    assert forall|j: int| i + 1 <= j < l@.len() implies !(char_p('/'))(
                        #[trigger] l@[j],
                    ) by {}
                    lemma_find_by_skip_none(l@, char_p('/'), i + 1);
                    assert(rest =~= rest.take(n - (i + 1)));
                }
                assert(slash_second_field(l@, i as int) =~= l@.skip(i + 1).take(
                    f1end - (i + 1),
                ));
            }
            let sp = find_space_from(l, i + 1);
            let vend = match sp {
                None => f1end,
                Some(k) => if k < f1end {
                    k
                } else {
                    f1end
                },
            };
            proof {
                let f1 = slash_second_field(l@, i as int);
                assert(f1.len() == f1end - (i + 1));
                assert forall|m: int| 0 <= m < f1.len() implies f1[m] == l@[m + i + 1] by {}
                if vend < f1end {
                    // a whitespace character inside the field ends the token
                    assert(is_space(l@[vend as int]));
                    assert forall|m: int| 0 <= m < vend - (i + 1) implies !(space_p())(
                        #[trigger] f1[m],
                    ) by {
                        assert(f1[m] == l@[m + i + 1]);
                        assert(!is_space(l@[m + i + 1]));
                    }
                    assert((space_p())(f1[vend - (i + 1)]));
                    lemma_find_by_take(f1, space_p(), f1.len() as int, vend - (i + 1));
                    assert(spec_find_space(f1) == Some(vend - (i + 1))) by {
                        assert(f1.take(f1.len() as int) =~= f1);
                    }
                    assert(apt_version_token(l@, i as int) =~= l@.subrange(i + 1, vend as int));
                } else {
                    // no whitespace inside the field: the whole field is the token
                    assert forall|m: int| 0 <= m < f1.len() implies !(space_p())(
                        #[trigger] f1[m],
                    ) by {
                        assert(f1[m] == l@[m + i + 1]);
                        assert(!is_space(l@[m + i + 1]));
                    }
                    lemma_find_by_none(f1, space_p());
                    assert(apt_version_token(l@, i as int) =~= l@.subrange(i + 1, vend as int));
                }
            }
            if vend == i + 1 {
                None
            } else {
                let name = String::from_str(l.substring_char(0, i));
                let version = String::from_str(l.substring_char(i + 1, vend));
                proof {
                    assert(l@.take(i as int) =~= l@.subrange(0, i as int));
                }
                Some(Package { name, version })
            }
        },
    }
}

/// Parses one PipTool listing line.
pub fn parse_pip_line(l: &str) -> (r: Option<Package>)
    ensures
        match r {
            Some(p) => spec_parse_pip_line(l@) == Some(p@),
            None => spec_parse_pip_line(l@) is None,
        },
{
    if contains_sub(l, "Package") || contains_sub(l, "---") {
        return None;
    }
    let n = l.unicode_len();
    match find_nonspace_from(l, 0) {
        None => {
            proof {
                assert forall|j: int| 0 <= j < l@.len() implies !(nonspace_p())(
                    #[trigger] l@[j],
                ) by {}
                lemma_find_by_none(l@, nonspace_p());
            }
            None
        },
        Some(a) => {
            proof {
                assert forall|j: int| 0 <= j < a implies !(nonspace_p())(#[trigger] l@[j]) by {}
                lemma_find_by_is(l@, nonspace_p(), a as int);
            }
            let e1 = match find_space_from(l, a) {
                None => n,
                Some(k) => k,
            };
            proof {
                let s1 = l@.skip(a as int);
                if e1 < n {
                    assert forall|j: int| a <= j < e1 implies !(space_p())(#[trigger] l@[j]) by {}
                    lemma_find_by_skip(l@, space_p(), a as int, e1 as int);
                } else {
                    assert forall|j: int| a <= j < l@.len() implies !(space_p())(
                        #[trigger] l@[j],
                    ) by {}
                    lemma_find_by_skip_none(l@, space_p(), a as int);
                }
                assert(token_end(s1) == e1 - a);
                assert(s1.take(e1 - a) =~= l@.subrange(a as int, e1 as int));
                assert(s1.skip(e1 - a) =~= l@.skip(e1 as int));
            }
            let name = String::from_str(l.substring_char(a, e1));
            match find_nonspace_from(l, e1) {
                None => {
                    proof {
                        assert forall|j: int| e1 <= j < l@.len() implies !(nonspace_p())(
                            #[trigger] l@[j],
                        ) by {}
                        lemma_find_by_skip_none(l@, nonspace_p(), e1 as int);
                    }
                    None
                },
                Some(b) => {
                    proof {
                        assert forall|j: int| e1 <= j < b implies !(nonspace_p())(
                            #[trigger] l@[j],
                        ) by {}
                        lemma_find_by_skip(l@, nonspace_p(), e1 as int, b as int);
                        assert(l@.skip(e1 as int).skip(b - e1) =~= l@.skip(b as int));
                    }
                    let e2 = match find_space_from(l, b) {
                        None => n,
                        Some(k) => k,
                    };
                    proof {
                        let s3 = l@.skip(b as int);
                        if e2 < n {
                            assert forall|j: int| b <= j < e2 implies !(space_p())(
                                #[trigger] l@[j],
                            ) by {}
                            lemma_find_by_skip(l@, space_p(), b as int, e2 as int);
                        } else {
                            assert forall|j: int| b <= j < l@.len() implies !(space_p())(
                                #[trigger] l@[j],
                            ) by {}
                            lemma_find_by_skip_none(l@, space_p(), b as int);
                        }
                        assert(token_end(s3) == e2 - b);
                        assert(s3.take(e2 - b) =~= l@.subrange(b as int, e2 as int));
                    }
                    let version = String::from_str(l.substring_char(b, e2));
                    Some(Package { name, version })
                },
            }
        },
    }
}

/// Parses one listing line with the given backend's strategy.
pub fn parse_line(pm: PackageManager, l: &str) -> (r: Option<Package>)
    ensures
        match r {
            Some(p) => spec_parse_line(pm, l@) == Some(p@),
            None => spec_parse_line(pm, l@) is None,
        },
{
    match pm {
        PackageManager::Pkg => parse_pkg_line(l),
        PackageManager::Apt => parse_apt_line(l),
        PackageManager::Pip => parse_pip_line(l),
    }
}

/// Parses raw listing output into the ordered package list for `pm`,
/// skipping lines that do not match the backend's shape.
pub fn parse_listing(pm: PackageManager, raw: &str) -> (r: Vec<Package>)
    ensures
        packages_of(r@) == spec_parse_listing(pm, raw@),
{
    let lines = split_lines(raw);
    let ghost lviews = lines@.map_values(|s: String| s@);
    let mut items: Vec<Package> = Vec::new();
    let mut idx: usize = 0;
    proof {
        assert(lviews.take(0) =~= Seq::<Seq<char>>::empty());
        assert(packages_of(items@) =~= Seq::<SpecPackage>::empty());
    }
    while idx < lines.len()
        invariant
            idx <= lines@.len(),
            lviews == lines@.map_values(|s: String| s@),
            lviews == spec_lines(raw@),
            packages_of(items@) == spec_parse_lines(pm, lviews.take(idx as int)),
        decreases lines@.len() - idx,
    {
        let ghost old_items = items@;
        let line: &String = &lines[idx];
        let parsed = parse_line(pm, line.as_str());
        proof {
            assert(line@ == lviews[idx as int]);
        }
        match parsed {
            Some(p) => {
                items.push(p);
            },
            None => {},
        }
        proof {
            let pre = lviews.take(idx as int);
            let post = lviews.take(idx + 1);
            assert(post.drop_last() =~= pre);
            assert(post.last() == lviews[idx as int]);
            match spec_parse_line(pm, lviews[idx as int]) {
                Some(sp) => {
                    assert(packages_of(items@) =~= packages_of(old_items).push(sp));
                    assert(spec_parse_lines(pm, post) =~= spec_parse_lines(pm, pre).push(sp));
                },
                None => {
                    assert(spec_parse_lines(pm, post) =~= spec_parse_lines(pm, pre));
                },
            }
        }
        idx += 1;
    }
    proof {
        assert(lviews.take(lines@.len() as int) =~= lviews);
    }
    items
}

/// The name of a package sits before the first `/` of the line it came from:
/// `i` is that slash's position and everything before it is slash-free.
pub open spec fn slash_prefix_at(l: Seq<char>, p: SpecPackage, i: int) -> bool {
    0 <= i < l.len() && l[i] == '/' && (forall|j: int| 0 <= j < i ==> #[trigger] l[j] != '/') && p.name
        == l.take(i)
}

/// The package `p` takes its name from the prefix of `l` before its first
/// `/`; in particular `l` contains at least one `/`.
pub open spec fn name_is_slash_prefix(l: Seq<char>, p: SpecPackage) -> bool {
    exists|i: int| #[trigger] slash_prefix_at(l, p, i)
}

/// A line the PkgTool parser accepts yields a package named by the prefix
/// before the line's first `/`.
pub proof fn lemma_pkg_line_name(l: Seq<char>)
    ensures
        spec_parse_pkg_line(l) matches Some(p) ==> name_is_slash_prefix(l, p),
{
    lemma_find_by(l, char_p('/'));
    match spec_find_char(l, '/') {
        Some(i) => {
            let p = SpecPackage { name: l.take(i), version: slash_second_field(l, i) };
            assert forall|j: int| 0 <= j < i implies #[trigger] l[j] != '/' by {
                assert(!(char_p('/'))(l[j]));
            }
            assert(slash_prefix_at(l, p, i));
        },
        None => {},
    }
}

/// Law: every package the PkgTool parser emits comes from a source line that
/// contains at least one `/`, and its name is that line's prefix before the
/// first `/`.
pub proof fn lemma_pkg_names_sourced(lines: Seq<Seq<char>>)
    ensures
        forall|k: int|
            0 <= k < spec_parse_lines(PackageManager::Pkg, lines).len() ==> exists|j: int|
                0 <= j < lines.len() && name_is_slash_prefix(
                    #[trigger] lines[j],
                    #[trigger] spec_parse_lines(PackageManager::Pkg, lines)[k],
                ),
    decreases lines.len(),
{
    let pm = PackageManager::Pkg;
    let all = spec_parse_lines(pm, lines);
    if lines.len() > 0 {
        let front = lines.drop_last();
        let rest = spec_parse_lines(pm, front);
        lemma_pkg_names_sourced(front);
        assert forall|k: int| 0 <= k < all.len() implies exists|j: int|
            0 <= j < lines.len() && name_is_slash_prefix(#[trigger] lines[j], #[trigger] all[k]) by {
            if k < rest.len() {
                let j = choose|j: int|
                    0 <= j < front.len() && name_is_slash_prefix(#[trigger] front[j], rest[k]);
                assert(lines[j] == front[j]);
                assert(all[k] == rest[k]);
                assert(name_is_slash_prefix(lines[j], all[k]));
            } else {
                let l = lines.last();
                match spec_parse_line(pm, l) {
                    Some(p) => {
                        lemma_pkg_line_name(l);
                        assert(all[k] == p);
                        assert(name_is_slash_prefix(lines[lines.len() - 1], all[k]));
                    },
                    None => {
                        assert(false);
                    },
                }
            }
        }
    }
}

/// Law: for every raw text, each package the PkgTool parser emits takes its
/// name from the prefix of one of the text's lines before that line's first
/// `/`.
pub proof fn lemma_pkg_parser_names(t: Seq<char>)
    ensures
        forall|k: int|
            0 <= k < spec_parse_listing(PackageManager::Pkg, t).len() ==> exists|j: int|
                0 <= j < spec_lines(t).len() && name_is_slash_prefix(
                    #[trigger] spec_lines(t)[j],
                    #[trigger] spec_parse_listing(PackageManager::Pkg, t)[k],
                ),
{
    lemma_pkg_names_sourced(spec_lines(t));
}

/// Law: empty listing output parses to the empty package sequence for every
/// backend.  (That a catalog loaded from it starts with no selection is
/// stated by `PackageList::load` itself.)
pub proof fn lemma_empty_listing(pm: PackageManager)
    ensures
        spec_parse_listing(pm, Seq::<char>::empty()) == Seq::<SpecPackage>::empty(),
{
    assert(spec_lines(Seq::<char>::empty()) =~= Seq::<Seq<char>>::empty());
    assert(spec_parse_listing(pm, Seq::<char>::empty()) =~= Seq::<SpecPackage>::empty());
}

} // verus!
