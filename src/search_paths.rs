//! The header search paths that `clang -E -x <language> - -v` reports on
//! standard error.

use vstd::prelude::*;

use crate::text::{
    chars_of, find_from, find_from_index, lemma_find_from_some, matches_at, occurs_at,
    string_from_chars, sub_vec, trim, trim_bounds,
};

verus! {

/// The line that opens the list of search paths.
pub open spec fn list_start() -> Seq<char> {
    "#include <...> search starts here:"@
}

/// The line that closes the list of search paths.
pub open spec fn list_end() -> Seq<char> {
    "End of search list."@
}

/// The note that follows a framework directory.
pub open spec fn framework_note() -> Seq<char> {
    "(framework directory)"@
}

/// `s[i..]` with every occurrence of `pat` removed, occurrences being taken
/// from left to right without overlap, as `str::replace` finds them.
pub open spec fn remove_all_from(s: Seq<char>, pat: Seq<char>, i: int) -> Seq<char>
    decreases s.len() - i,
{
    if i < 0 || i >= s.len() {
        Seq::empty()
    } else if pat.len() > 0 && occurs_at(s, pat, i) {
        remove_all_from(s, pat, i + pat.len())
    } else {
        seq![s[i]] + remove_all_from(s, pat, i + 1)
    }
}

/// `l` without one trailing carriage return.
pub open spec fn strip_cr(l: Seq<char>) -> Seq<char> {
    if l.len() > 0 && l.last() == '\r' {
        l.drop_last()
    } else {
        l
    }
}

/// The lines of `s[start..]`, as `str::lines` yields them, where the scan has
/// reached index `i` of a line that began at `start`: a line ends at `\n`
/// (and then loses a `\r` before it); a last line without `\n` is kept whole.
pub open spec fn lines_from(s: Seq<char>, start: int, i: int) -> Seq<Seq<char>>
    decreases s.len() - i,
{
    if i < 0 || i >= s.len() {
        if 0 <= start < s.len() {
            seq![s.subrange(start, s.len() as int)]
        } else {
            Seq::empty()
        }
    } else if s[i] == '\n' {
        seq![strip_cr(s.subrange(start, i))] + lines_from(s, i + 1, i + 1)
    } else {
        lines_from(s, start, i + 1)
    }
}

/// The lines of `s`.
pub open spec fn lines(s: Seq<char>) -> Seq<Seq<char>> {
    lines_from(s, 0, 0)
}

/// The non-empty lines of `ls`, in order, each trimmed of whitespace.
pub open spec fn paths_of_lines(ls: Seq<Seq<char>>) -> Seq<Seq<char>>
    decreases ls.len(),
{
    if ls.len() == 0 {
        Seq::empty()
    } else if ls[0].len() == 0 {
        paths_of_lines(ls.drop_first())
    } else {
        seq![trim(ls[0])] + paths_of_lines(ls.drop_first())
    }
}

/// The search paths in `text`: the text strictly between the opening line
/// and the first closing line after it, with every framework note removed,
/// split into lines, empty lines dropped and the rest trimmed. None where
/// either line is missing.
pub open spec fn search_paths_of(text: Seq<char>) -> Option<Seq<Seq<char>>> {
    match find_from(text, list_start(), 0) {
        None => None,
        Some(a) => match find_from(text, list_end(), a + list_start().len()) {
            None => None,
            Some(e) => Some(
                paths_of_lines(
                    lines(
                        remove_all_from(
                            text.subrange(a + list_start().len(), e),
                            framework_note(),
                            0,
                        ),
                    ),
                ),
            ),
        },
    }
}

/// The text of each string in `v`.
pub open spec fn texts(v: Seq<String>) -> Seq<Seq<char>> {
    v.map_values(|p: String| p@)
}

fn remove_all(s: &Vec<char>, pat: &Vec<char>) -> (r: Vec<char>)
    requires
        pat.len() > 0,
    ensures
        r@ == remove_all_from(s@, pat@, 0),
{
    let mut out: Vec<char> = Vec::new();
    let mut j: usize = 0;
    while j < s.len()
        invariant
            j <= s.len(),
            pat.len() > 0,
            out@ + remove_all_from(s@, pat@, j as int) == remove_all_from(s@, pat@, 0),
        decreases s.len() - j,
    {
        if matches_at(s, pat, j) {
            j += pat.len();
        } else {
            let ghost before = out@;
            out.push(s[j]);
            assert(out@ + remove_all_from(s@, pat@, j + 1) =~= before + (seq![s@[j as int]]
                + remove_all_from(s@, pat@, j + 1)));
            j += 1;
        }
    }
    assert(out@ + remove_all_from(s@, pat@, j as int) =~= out@);
    out
}

fn split_paths(c: &Vec<char>) -> (r: Vec<String>)
    ensures
        texts(r@) == paths_of_lines(lines(c@)),
{
    let mut out: Vec<String> = Vec::new();
    let mut start: usize = 0;
    let mut i: usize = 0;
    while i < c.len()
        invariant
            start <= i <= c.len(),
            texts(out@) + paths_of_lines(lines_from(c@, start as int, i as int))
                == paths_of_lines(lines(c@)),
        decreases c.len() - i,
    {
        if c[i] == '\n' {
            let end: usize = if i > start && c[i - 1] == '\r' {
                i - 1
            } else {
                i
            };
            let ghost line = strip_cr(c@.subrange(start as int, i as int));
            let ghost rest = lines_from(c@, i + 1, i + 1);
            assert(c@.subrange(start as int, end as int) =~= line);
            assert((seq![line] + rest).drop_first() =~= rest);
            if end > start {
                let (a, b) = trim_bounds(c, start, end);
                let piece = sub_vec(c, a, b);
                let p = string_from_chars(&piece);
                let ghost before = texts(out@);
                out.push(p);
                assert(texts(out@) =~= before.push(trim(line)));
                assert(texts(out@) + paths_of_lines(rest) =~= before + (seq![trim(line)]
                    + paths_of_lines(rest)));
            }
            start = i + 1;
        }
        i += 1;
    }
    if start < c.len() {
        let ghost line = c@.subrange(start as int, c.len() as int);
        assert(seq![line].drop_first() =~= Seq::<Seq<char>>::empty());
        assert(lines_from(c@, start as int, i as int) == seq![line]);
        assert(paths_of_lines(seq![line]) == seq![trim(line)] + paths_of_lines(
            Seq::<Seq<char>>::empty(),
        ));
        let (a, b) = trim_bounds(c, start, c.len());
        let piece = sub_vec(c, a, b);
        let p = string_from_chars(&piece);
        let ghost before = texts(out@);
        out.push(p);
        assert(texts(out@) =~= before.push(trim(line)));
        assert(texts(out@) =~= before + seq![trim(line)]);
    } else {
        assert(lines_from(c@, start as int, i as int) == Seq::<Seq<char>>::empty());
        assert(texts(out@) =~= texts(out@) + Seq::<Seq<char>>::empty());
    }
    out
}

/// Parses the search paths from the diagnostic output of `clang`; none where
/// the opening line, or a closing line after it, is missing.
pub fn parse_search_paths_output(output: &str) -> (r: Option<Vec<String>>)
    ensures
        match r {
            Some(paths) => search_paths_of(output@) == Some(texts(paths@)),
            None => search_paths_of(output@) is None,
        },
{
    let s = chars_of(output);
    let open_line = chars_of("#include <...> search starts here:");
    let close_line = chars_of("End of search list.");
    let note = chars_of("(framework directory)");
    proof {
        reveal_strlit("#include <...> search starts here:");
        reveal_strlit("End of search list.");
        reveal_strlit("(framework directory)");
    }
    let found = find_from_index(&s, &open_line, 0);
    if found.is_none() {
        return None;
    }
    let a = found.unwrap();
    let open_len = open_line.len();
    proof {
        assert(find_from(s@, open_line@, 0) == Some(a as int));
        lemma_find_from_some(s@, open_line@, 0);
        assert(occurs_at(s@, open_line@, a as int));
        assert(a + open_len <= s.len());
    }
    let b: usize = a + open_len;
    let found_end = find_from_index(&s, &close_line, b);
    if found_end.is_none() {
        return None;
    }
    let e = found_end.unwrap();
    proof {
        lemma_find_from_some(s@, close_line@, b as int);
    }
    let block = sub_vec(&s, b, e);
    let cleaned = remove_all(&block, &note);
    Some(split_paths(&cleaned))
}

} // verus!
