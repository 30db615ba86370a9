//! Path text helpers: the final component of a slash-separated path, its
//! extension, and the case-insensitive extension filter that decides which
//! files the watcher hands to the upload queue.

use vstd::prelude::*;

verus! {

/// Index of the last occurrence of `c` in `s`, or -1 if `c` does not occur.
pub open spec fn last_index_of(s: Seq<char>, c: char) -> int
    decreases s.len(),
{
    if s.len() == 0 {
        -1
    } else if s[s.len() - 1] == c {
        s.len() - 1
    } else {
        last_index_of(s.drop_last(), c)
    }
}

pub proof fn lemma_last_index_of_props(s: Seq<char>, c: char)
    ensures
        -1 <= last_index_of(s, c) < s.len(),
        last_index_of(s, c) >= 0 ==> s[last_index_of(s, c)] == c,
        forall|j: int| last_index_of(s, c) < j < s.len() ==> s[j] != c,
    decreases s.len(),
{
    if s.len() > 0 && s[s.len() - 1] != c {
        lemma_last_index_of_props(s.drop_last(), c);
        assert(forall|j: int| 0 <= j < s.len() - 1 ==> s[j] == s.drop_last()[j]);
    }
}

pub proof fn lemma_last_index_of_unique(s: Seq<char>, c: char, r: int)
    requires
        -1 <= r < s.len(),
        r >= 0 ==> s[r] == c,
        forall|j: int| r < j < s.len() ==> s[j] != c,
    ensures
        last_index_of(s, c) == r,
{
    lemma_last_index_of_props(s, c);
    if last_index_of(s, c) < r {
        assert(s[r] == c);
    }
}

/// The final component of a path: everything after the last `/`
/// (the whole string when there is no `/`).
pub open spec fn spec_file_name(s: Seq<char>) -> Seq<char> {
    s.subrange(last_index_of(s, '/') + 1, s.len() as int)
}

/// The extension of the final component: the text after its last `.`,
/// provided that `.` is not the component's first character.
pub open spec fn spec_extension(s: Seq<char>) -> Option<Seq<char>> {
    let comp = spec_file_name(s);
    let d = last_index_of(comp, '.');
    if d > 0 {
        Some(comp.subrange(d + 1, comp.len() as int))
    } else {
        None
    }
}

/// `a` equals the lowercase letter `low`, or is its uppercase form.
pub open spec fn spec_char_eq_ci(a: char, low: char) -> bool {
    a == low || a as int + 32 == low as int
}

/// `e` spells `w` (a lowercase word) up to ASCII case.
pub open spec fn spec_matches_ci(e: Seq<char>, w: Seq<char>) -> bool {
    e.len() == w.len() && forall|i: int| 0 <= i < e.len() ==> spec_char_eq_ci(e[i], w[i])
}

/// The extensions the watcher accepts, compared case-insensitively.
pub open spec fn spec_accepted_extension(e: Seq<char>) -> bool {
    ||| spec_matches_ci(e, seq!['j', 'p', 'g'])
    ||| spec_matches_ci(e, seq!['j', 'p', 'e', 'g'])
    ||| spec_matches_ci(e, seq!['p', 'n', 'g'])
    ||| spec_matches_ci(e, seq!['n', 'e', 'f'])
}

/// A path names an image file when its extension is one of the accepted ones.
pub open spec fn spec_is_image_path(s: Seq<char>) -> bool {
    match spec_extension(s) {
        Some(e) => spec_accepted_extension(e),
        None => false,
    }
}

/// The stem of a file name: what stands before its last `.`, or the whole
/// name when there is no `.` past the first character.
pub open spec fn spec_stem(name: Seq<char>) -> Seq<char> {
    let d = last_index_of(name, '.');
    if d > 0 {
        name.subrange(0, d)
    } else {
        name
    }
}

/// The extension suffix of a file name: what stands after its last `.`,
/// or nothing when there is no `.` past the first character.
pub open spec fn spec_ext_suffix(name: Seq<char>) -> Seq<char> {
    let d = last_index_of(name, '.');
    if d > 0 {
        name.subrange(d + 1, name.len() as int)
    } else {
        Seq::empty()
    }
}

/// Scan `s` backwards for the last occurrence of `c` at index `from` or later;
/// returns its index, or `None` when absent.
pub(crate) fn rfind_char_from(s: &str, from: usize, c: char) -> (r: Option<usize>)
    requires
        from <= s@.len(),
    ensures
        match r {
            Some(i) => {
                &&& from <= i < s@.len()
                &&& s@[i as int] == c
                &&& forall|j: int| i < j < s@.len() ==> s@[j] != c
            },
            None => forall|j: int| from <= j < s@.len() ==> s@[j] != c,
        },
{
    let n: usize = s.unicode_len();
    let mut i: usize = n;
    while i > from
        invariant
            from <= i <= n,
            n == s@.len(),
            forall|j: int| i <= j < s@.len() ==> s@[j] != c,
        decreases i,
    {
        i = i - 1;
        if s.get_char(i) == c {
            return Some(i);
        }
    }
    None
}

/// Whether `a` is `low` or its uppercase form; `low` must be a lowercase
/// ASCII letter.
fn char_eq_ci(a: char, low: char) -> (r: bool)
    requires
        'a' as int <= low as int <= 'z' as int,
    ensures
        r == spec_char_eq_ci(a, low),
{
    let au: u32 = a as u32;
    let lu: u32 = low as u32;
    au == lu || au + 32 == lu
}

/// Whether a path (as text, `/`-separated) names a file with one of the
/// accepted image extensions: `jpg`, `jpeg`, `png` or `nef`, in any case.
pub fn is_image_file(path: &str) -> (r: bool)
    ensures
        r == spec_is_image_path(path@),
{
    let n: usize = path.unicode_len();
    let slash: Option<usize> = rfind_char_from(path, 0, '/');
    let start: usize = match slash {
        Some(i) => i + 1,
        None => 0,
    };
    proof {
        lemma_last_index_of_unique(
            path@,
            '/',
            match slash {
                Some(i) => i as int,
                None => -1,
            },
        );
    }
    let ghost comp = spec_file_name(path@);
    assert(comp =~= path@.subrange(start as int, n as int));
    let dot: Option<usize> = rfind_char_from(path, start, '.');
    proof {
        let d: int = match dot {
            Some(i) => i as int - start as int,
            None => -1,
        };
        if d >= 0 {
            assert(comp[d] == path@[start as int + d]);
        }
        assert forall|j: int| d < j < comp.len() implies comp[j] != '.' by {
            assert(comp[j] == path@[start as int + j]);
        }
        lemma_last_index_of_unique(comp, '.', d);
    }
    match dot {
        Some(di) => {
            if di == start {
                // the dot opens the component: no extension
                return false;
            }
            let elen: usize = n - di - 1;
            let ghost e = comp.subrange(di as int - start as int + 1, comp.len() as int);
            assert(spec_extension(path@) == Some(e));
            assert(forall|k: int| 0 <= k < e.len() ==> e[k] == path@[di as int + 1 + k]);
            if elen == 3 {
                let c0: char = path.get_char(di + 1);
                let c1: char = path.get_char(di + 2);
                let c2: char = path.get_char(di + 3);
                let jpg: bool = char_eq_ci(c0, 'j') && char_eq_ci(c1, 'p') && char_eq_ci(c2, 'g');
                let png: bool = char_eq_ci(c0, 'p') && char_eq_ci(c1, 'n') && char_eq_ci(c2, 'g');
                let nef: bool = char_eq_ci(c0, 'n') && char_eq_ci(c1, 'e') && char_eq_ci(c2, 'f');
                jpg || png || nef
            } else if elen == 4 {
                let c0: char = path.get_char(di + 1);
                let c1: char = path.get_char(di + 2);
                let c2: char = path.get_char(di + 3);
                let c3: char = path.get_char(di + 4);
                char_eq_ci(c0, 'j') && char_eq_ci(c1, 'p') && char_eq_ci(c2, 'e')
                    && char_eq_ci(c3, 'g')
            } else {
                false
            }
        },
        None => false,
    }
}

/// The final component of `path`, as a fresh string.
pub fn file_name_of(path: &str) -> (r: String)
    ensures
        r@ == spec_file_name(path@),
{
    let n: usize = path.unicode_len();
    let slash: Option<usize> = rfind_char_from(path, 0, '/');
    let start: usize = match slash {
        Some(i) => i + 1,
        None => 0,
    };
    proof {
        lemma_last_index_of_unique(
            path@,
            '/',
            match slash {
                Some(i) => i as int,
                None => -1,
            },
        );
    }
    let tail: &str = path.substring_char(start, n);
    tail.to_owned()
}

} // verus!
