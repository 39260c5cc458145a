//! Which entry of a directory listing names a `clang` executable, and which
//! candidate directory the search settles on.

use vstd::prelude::*;

use crate::search_paths::texts;
use crate::text::{chars_of, is_digit, matches_at, occurs_at, string_from_chars};

verus! {

/// The unversioned name: `clang` and the platform's executable suffix.
pub open spec fn is_unversioned(name: Seq<char>, suffix: Seq<char>) -> bool {
    name == "clang"@ + suffix
}

/// A name that `clang-[0-9]*<suffix>` matches: `clang-`, a decimal digit,
/// any characters, and the executable suffix at the end.
pub open spec fn is_versioned(name: Seq<char>, suffix: Seq<char>) -> bool {
    &&& name.len() >= 7 + suffix.len()
    &&& occurs_at(name, "clang-"@, 0)
    &&& is_digit(name[6])
    &&& occurs_at(name, suffix, name.len() - suffix.len())
}

/// `a` sorts strictly before `b`, character by character.
pub open spec fn lex_lt(a: Seq<char>, b: Seq<char>) -> bool
    decreases a.len(),
{
    if a.len() == 0 {
        b.len() > 0
    } else if b.len() == 0 {
        false
    } else if a[0] != b[0] {
        a[0] < b[0]
    } else {
        lex_lt(a.drop_first(), b.drop_first())
    }
}

/// `n` is an entry of the listing that matches the versioned pattern, and no
/// such entry sorts before it.
pub open spec fn is_least_versioned(entries: Seq<Seq<char>>, suffix: Seq<char>, n: Seq<char>) -> bool {
    &&& entries.contains(n)
    &&& is_versioned(n, suffix)
    &&& forall|j: int|
        0 <= j < entries.len() && is_versioned(#[trigger] entries[j], suffix) ==> !lex_lt(
            entries[j],
            n,
        )
}

/// The entry that a search of one directory picks: the unversioned name where
/// the listing holds it, else the first versioned name in sorted order.
pub open spec fn directory_match(entries: Seq<Seq<char>>, suffix: Seq<char>) -> Option<Seq<char>> {
    if exists|j: int| 0 <= j < entries.len() && is_unversioned(#[trigger] entries[j], suffix) {
        Some("clang"@ + suffix)
    } else if exists|n: Seq<char>| is_least_versioned(entries, suffix, n) {
        Some(choose|n: Seq<char>| is_least_versioned(entries, suffix, n))
    } else {
        None
    }
}

/// `name` inside `dir`: joined by the separator unless `dir` is empty or
/// already ends with one.
pub open spec fn join_path(dir: Seq<char>, name: Seq<char>, sep: char) -> Seq<char> {
    if dir.len() == 0 || dir.last() == sep || dir.last() == '/' {
        dir + name
    } else {
        dir + seq![sep] + name
    }
}

/// The text of each listing.
pub open spec fn listing_texts(listings: Seq<Vec<String>>) -> Seq<Seq<Seq<char>>> {
    listings.map_values(|l: Vec<String>| texts(l@))
}

/// The path that a search of the directories from index `i` on settles on:
/// the pick of the first directory whose listing has one.
pub open spec fn first_match(
    dirs: Seq<Seq<char>>,
    listings: Seq<Seq<Seq<char>>>,
    suffix: Seq<char>,
    sep: char,
    i: int,
) -> Option<Seq<char>>
    decreases dirs.len() - i,
{
    if i < 0 || i >= dirs.len() || i >= listings.len() {
        None
    } else {
        match directory_match(listings[i], suffix) {
            Some(n) => Some(join_path(dirs[i], n, sep)),
            None => first_match(dirs, listings, suffix, sep, i + 1),
        }
    }
}

proof fn lemma_lex_lt_asymmetric(a: Seq<char>, b: Seq<char>)
    ensures
        !(lex_lt(a, b) && lex_lt(b, a)),
    decreases a.len(),
{
    if a.len() > 0 && b.len() > 0 && a[0] == b[0] {
        lemma_lex_lt_asymmetric(a.drop_first(), b.drop_first());
    }
}

proof fn lemma_lex_lt_transitive(a: Seq<char>, b: Seq<char>, c: Seq<char>)
    requires
        lex_lt(a, b),
        lex_lt(b, c),
    ensures
        lex_lt(a, c),
    decreases a.len(),
{
    if a.len() > 0 && b.len() > 0 && c.len() > 0 && a[0] == b[0] && b[0] == c[0] {
        lemma_lex_lt_transitive(a.drop_first(), b.drop_first(), c.drop_first());
    }
}

proof fn lemma_lex_lt_total(a: Seq<char>, b: Seq<char>)
    requires
        a != b,
    ensures
        lex_lt(a, b) || lex_lt(b, a),
    decreases a.len(),
{
    if a.len() > 0 && b.len() > 0 && a[0] == b[0] {
        if a.drop_first() == b.drop_first() {
            assert(a =~= seq![a[0]] + a.drop_first());
            assert(b =~= seq![b[0]] + b.drop_first());
        }
        lemma_lex_lt_total(a.drop_first(), b.drop_first());
    } else if a.len() == 0 && b.len() == 0 {
        assert(a =~= b);
    }
}

/// At most one entry is the least versioned one.
proof fn lemma_least_unique(entries: Seq<Seq<char>>, suffix: Seq<char>, n: Seq<char>)
    requires
        is_least_versioned(entries, suffix, n),
    ensures
        (choose|m: Seq<char>| is_least_versioned(entries, suffix, m)) == n,
{
    let m = choose|m: Seq<char>| is_least_versioned(entries, suffix, m);
    assert(is_least_versioned(entries, suffix, m));
    let jm = choose|j: int| 0 <= j < entries.len() && entries[j] == m;
    let jn = choose|j: int| 0 <= j < entries.len() && entries[j] == n;
    assert(!lex_lt(entries[jm], n));
    assert(!lex_lt(entries[jn], m));
    if m != n {
        lemma_lex_lt_total(m, n);
    }
}

fn name_lt(a: &Vec<char>, b: &Vec<char>) -> (r: bool)
    ensures
        r == lex_lt(a@, b@),
{
    let mut i: usize = 0;
    assert(a@.skip(0) =~= a@);
    assert(b@.skip(0) =~= b@);
    while i < a.len() && i < b.len() && a[i] == b[i]
        invariant
            i <= a.len(),
            i <= b.len(),
            lex_lt(a@, b@) == lex_lt(a@.skip(i as int), b@.skip(i as int)),
        decreases a.len() - i,
    {
        assert(a@.skip(i + 1) =~= a@.skip(i as int).drop_first());
        assert(b@.skip(i + 1) =~= b@.skip(i as int).drop_first());
        i += 1;
    }
    if i == a.len() {
        i < b.len()
    } else if i == b.len() {
        false
    } else {
        a[i] < b[i]
    }
}

fn is_versioned_name(name: &Vec<char>, prefix: &Vec<char>, suffix: &Vec<char>) -> (r: bool)
    requires
        prefix@ == "clang-"@,
    ensures
        r == is_versioned(name@, suffix@),
{
    proof {
        reveal_strlit("clang-");
    }
    if name.len() < 7 || name.len() - 7 < suffix.len() {
        return false;
    }
    matches_at(name, prefix, 0) && '0' <= name[6] && name[6] <= '9' && matches_at(
        name,
        suffix,
        name.len() - suffix.len(),
    )
}

/// Picks the `clang` executable among the entries of one directory: the
/// unversioned name where present, else the versioned name that sorts first.
pub fn find(entries: &Vec<String>, suffix: &str) -> (r: Option<String>)
    ensures
        match r {
            Some(n) => directory_match(texts(entries@), suffix@) == Some(n@),
            None => directory_match(texts(entries@), suffix@) is None,
        },
{
    let ghost es = texts(entries@);
    let suffix_chars = chars_of(suffix);
    let mut stem = chars_of("clang");
    let mut k: usize = 0;
    while k < suffix_chars.len()
        invariant
            k <= suffix_chars.len(),
            stem@ == "clang"@ + suffix_chars@.take(k as int),
        decreases suffix_chars.len() - k,
    {
        stem.push(suffix_chars[k]);
        k += 1;
        assert(stem@ =~= "clang"@ + suffix_chars@.take(k as int));
    }
    assert(suffix_chars@.take(k as int) =~= suffix@);
    let mut i: usize = 0;
    while i < entries.len()
        invariant
            i <= entries.len(),
            es == texts(entries@),
            stem@ == "clang"@ + suffix@,
            forall|j: int| 0 <= j < i ==> !is_unversioned(#[trigger] es[j], suffix@),
        decreases entries.len() - i,
    {
        let name = chars_of(entries[i].as_str());
        if name.len() == stem.len() && matches_at(&name, &stem, 0) {
            assert(name@ =~= name@.subrange(0, stem@.len() as int));
            let r = entries[i].clone();
            assert(es[i as int] == name@);
            return Some(r);
        }
        assert(es[i as int] == name@);
        proof {
            if name@ == stem@ {
                assert(name@.subrange(0, stem@.len() as int) =~= stem@);
            }
        }
        i += 1;
    }
    let prefix = chars_of("clang-");
    let mut best: Option<usize> = None;
    let mut best_name: Vec<char> = Vec::new();
    i = 0;
    while i < entries.len()
        invariant
            i <= entries.len(),
            es == texts(entries@),
            prefix@ == "clang-"@,
            forall|j: int| 0 <= j < entries.len() ==> !is_unversioned(#[trigger] es[j], suffix@),
            match best {
                Some(b) => {
                    &&& b < i
                    &&& best_name@ == es[b as int]
                    &&& is_versioned(best_name@, suffix_chars@)
                    &&& forall|j: int|
                        0 <= j < i && is_versioned(#[trigger] es[j], suffix@) ==> !lex_lt(
                            es[j],
                            best_name@,
                        )
                },
                None => forall|j: int| 0 <= j < i ==> !is_versioned(#[trigger] es[j], suffix@),
            },
            suffix_chars@ == suffix@,
        decreases entries.len() - i,
    {
        let name = chars_of(entries[i].as_str());
        assert(es[i as int] == name@);
        if is_versioned_name(&name, &prefix, &suffix_chars) {
            let replace = match best {
                None => true,
                Some(_) => name_lt(&name, &best_name),
            };
            if replace {
                proof {
                    lemma_lex_lt_asymmetric(name@, name@);
                    assert forall|j: int|
                        0 <= j < i + 1 && is_versioned(#[trigger] es[j], suffix@) implies !lex_lt(
                        es[j],
                        name@,
                    ) by {
                        if j < i && best is Some && lex_lt(es[j], name@) {
                            lemma_lex_lt_transitive(es[j], name@, best_name@);
                        }
                    }
                }
                best = Some(i);
                best_name = name;
            }
        }
        i += 1;
    }
    proof {
        assert(!(exists|j: int| 0 <= j < es.len() && is_unversioned(#[trigger] es[j], suffix@)));
    }
    match best {
        Some(b) => {
            proof {
                assert(es[b as int] == best_name@);
                assert(es.contains(best_name@));
                assert(is_least_versioned(es, suffix@, best_name@));
                lemma_least_unique(es, suffix@, best_name@);
            }
            let r = entries[b].clone();
            assert(r@ == es[b as int]);
            Some(r)
        },
        None => {
            proof {
                if exists|n: Seq<char>| is_least_versioned(es, suffix@, n) {
                    let n = choose|n: Seq<char>| is_least_versioned(es, suffix@, n);
                    let j = choose|j: int| 0 <= j < es.len() && es[j] == n;
                    assert(is_versioned(es[j], suffix@));
                }
            }
            None
        },
    }
}

/// A pick is an entry of the listing that matches one of the two patterns.
pub proof fn lemma_directory_match_is_entry(entries: Seq<Seq<char>>, suffix: Seq<char>)
    requires
        directory_match(entries, suffix) is Some,
    ensures
        entries.contains(directory_match(entries, suffix)->0),
        is_unversioned(directory_match(entries, suffix)->0, suffix) || is_versioned(
            directory_match(entries, suffix)->0,
            suffix,
        ),
{
    if exists|j: int| 0 <= j < entries.len() && is_unversioned(#[trigger] entries[j], suffix) {
        let j = choose|j: int| 0 <= j < entries.len() && is_unversioned(#[trigger] entries[j], suffix);
        assert(entries[j] == "clang"@ + suffix);
    } else {
        let n = choose|n: Seq<char>| is_least_versioned(entries, suffix, n);
        assert(is_least_versioned(entries, suffix, n));
    }
}

fn push_all(v: &mut Vec<char>, w: &Vec<char>)
    ensures
        final(v)@ == old(v)@ + w@,
{
    let mut k: usize = 0;
    while k < w.len()
        invariant
            k <= w.len(),
            v@ == old(v)@ + w@.take(k as int),
        decreases w.len() - k,
    {
        v.push(w[k]);
        k += 1;
        assert(v@ =~= old(v)@ + w@.take(k as int));
    }
    assert(w@.take(k as int) =~= w@);
}

/// The path of `name` inside `dir`.
pub fn join(dir: &str, name: &str, sep: char) -> (r: String)
    ensures
        r@ == join_path(dir@, name@, sep),
{
    let mut path = chars_of(dir);
    let n = chars_of(name);
    if !(path.len() == 0 || path[path.len() - 1] == sep || path[path.len() - 1] == '/') {
        path.push(sep);
    }
    push_all(&mut path, &n);
    string_from_chars(&path)
}

/// The path that the search settles on: the pick of the first directory, in
/// order, whose listing (the one at the same index) holds a `clang` executable.
/// None exactly where no listing holds one.
pub fn select_executable(
    dirs: &Vec<String>,
    listings: &Vec<Vec<String>>,
    suffix: &str,
    sep: char,
) -> (r: Option<String>)
    ensures
        match r {
            Some(p) => first_match(texts(dirs@), listing_texts(listings@), suffix@, sep, 0) == Some(
                p@,
            ),
            None => first_match(texts(dirs@), listing_texts(listings@), suffix@, sep, 0) is None,
        },
        r matches Some(p) ==> exists|i: int, n: Seq<char>|
            0 <= i < dirs.len() && i < listings.len() && p@ == #[trigger] join_path(
                texts(dirs@)[i],
                n,
                sep,
            ) && listing_texts(listings@)[i].contains(n) && (is_unversioned(n, suffix@)
                || is_versioned(n, suffix@)),
        r is None <==> forall|i: int|
            0 <= i < dirs.len() && i < listings.len() ==> directory_match(
                #[trigger] listing_texts(listings@)[i],
                suffix@,
            ) is None,
{
    let ghost ds = texts(dirs@);
    let ghost ls = listing_texts(listings@);
    let mut i: usize = 0;
    while i < dirs.len() && i < listings.len()
        invariant
            i <= dirs.len(),
            i <= listings.len(),
            ds == texts(dirs@),
            ls == listing_texts(listings@),
            first_match(ds, ls, suffix@, sep, 0) == first_match(ds, ls, suffix@, sep, i as int),
            forall|j: int| 0 <= j < i ==> directory_match(#[trigger] ls[j], suffix@) is None,
        decreases dirs.len() - i,
    {
        assert(ls[i as int] == texts(listings@[i as int]@));
        match find(&listings[i], suffix) {
            Some(name) => {
                let p = join(dirs[i].as_str(), name.as_str(), sep);
                assert(ds[i as int] == dirs@[i as int]@);
                proof {
                    lemma_directory_match_is_entry(ls[i as int], suffix@);
                }
                return Some(p);
            },
            None => {},
        }
        i += 1;
    }
    None
}

} // verus!
