//! Path resolution on `/`-separated UTF-8 paths.
//!
//! Paths are handled as plain strings; the functions here split them into
//! parent and file-name components, replace extensions, recognise the
//! reserved derivative folders and the accepted image extensions.

use vstd::prelude::*;
use vstd::string::StrSliceExecFns;
use vstd::string::StringExecFns;

verus! {

/// Index of the last occurrence of `c` in `s`, or -1 when `c` does not occur.
pub open spec fn last_index_of(s: Seq<char>, c: char) -> int
    decreases s.len(),
{
    if s.len() == 0 {
        -1
    } else if s[s.len() - 1] == c {
        s.len() - 1
    } else {
        last_index_of(s.drop_last(), c)
    }
}

/// What `last_index_of` returns: a valid index of `c` with nothing but
/// other characters after it, or -1 when `c` is absent.
pub proof fn lemma_last_index_of_props(s: Seq<char>, c: char)
    ensures
        -1 <= last_index_of(s, c) < s.len(),
        last_index_of(s, c) >= 0 ==> s[last_index_of(s, c)] == c,
        forall|j: int| last_index_of(s, c) < j < s.len() ==> s[j] != c,
    decreases s.len(),
{
    if s.len() > 0 && s[s.len() - 1] != c {
        lemma_last_index_of_props(s.drop_last(), c);
        assert(forall|j: int| 0 <= j < s.len() - 1 ==> s[j] == s.drop_last()[j]);
    }
}

/// The last index of `c` is exactly `i` when `s[i] == c` and no later
/// position holds `c`.
pub proof fn lemma_last_index_of_at(s: Seq<char>, c: char, i: int)
    requires
        0 <= i < s.len(),
        s[i] == c,
        forall|j: int| i < j < s.len() ==> s[j] != c,
    ensures
        last_index_of(s, c) == i,
    decreases s.len(),
{
    if i < s.len() - 1 {
        assert(forall|j: int| 0 <= j < s.len() - 1 ==> s[j] == s.drop_last()[j]);
        lemma_last_index_of_at(s.drop_last(), c, i);
    }
}

/// Index of the last occurrence of `c`, scanned from the end.
pub fn rfind_char(s: &str, c: char) -> (r: Option<usize>)
    ensures
        match r {
            Some(i) => i == last_index_of(s@, c),
            None => last_index_of(s@, c) == -1,
        },
{
    let n = s.unicode_len();
    let mut i = n;
    loop
        invariant
            i <= n,
            n == s@.len(),
            forall|j: int| i <= j < s@.len() ==> s@[j] != c,
        decreases i,
    {
        if i == 0 {
            proof {
                lemma_last_index_of_props(s@, c);
            }
            return None;
        }
        i = i - 1;
        if s.get_char(i) == c {
            proof {
                lemma_last_index_of_at(s@, c, i as int);
            }
            return Some(i);
        }
    }
}

/// True when the path has a parent component, i.e. holds a separator.
pub open spec fn spec_has_parent(s: Seq<char>) -> bool {
    last_index_of(s, '/') >= 0
}

/// Everything before the last separator.
pub open spec fn spec_parent(s: Seq<char>) -> Seq<char> {
    s.subrange(0, last_index_of(s, '/'))
}

/// Everything after the last separator; the whole path when there is none.
pub open spec fn spec_file_name(s: Seq<char>) -> Seq<char> {
    s.subrange(last_index_of(s, '/') + 1, s.len() as int)
}

/// The parent directory of a path, or the path itself as the error detail
/// when it has no separator.
pub fn get_parent_directory(path: &str) -> (r: Result<String, String>)
    ensures
        match r {
            Ok(p) => spec_has_parent(path@) && p@ == spec_parent(path@),
            Err(e) => !spec_has_parent(path@) && e@ == path@,
        },
{
    proof {
        lemma_last_index_of_props(path@, '/');
    }
    match rfind_char(path, '/') {
        Some(i) => Ok(path.substring_char(0, i).to_owned()),
        None => Err(path.to_owned()),
    }
}

/// The file-name component of a path, or the path itself as the error
/// detail when that component is empty.
pub fn get_file_name(path: &str) -> (r: Result<String, String>)
    ensures
        match r {
            Ok(n) => n@ == spec_file_name(path@) && n@.len() > 0,
            Err(e) => spec_file_name(path@).len() == 0 && e@ == path@,
        },
{
    proof {
        lemma_last_index_of_props(path@, '/');
    }
    let n = s_len(path);
    let start = match rfind_char(path, '/') {
        Some(i) => i + 1,
        None => 0,
    };
    if start == n {
        Err(path.to_owned())
    } else {
        Ok(path.substring_char(start, n).to_owned())
    }
}

/// Character count of a string slice.
pub fn s_len(s: &str) -> (n: usize)
    ensures
        n == s@.len(),
{
    s.unicode_len()
}

/// Case-insensitive equality of ASCII letters: equal once upper-case
/// letters are mapped 32 code points up.
pub open spec fn char_ci_eq(a: char, b: char) -> bool {
    a == b || ('A' <= a <= 'Z' && b as u32 == a as u32 + 32) || ('A' <= b <= 'Z' && a as u32 == b
        as u32 + 32)
}

/// Case-insensitive equality of two character sequences.
pub open spec fn chars_ci_eq(a: Seq<char>, b: Seq<char>) -> bool {
    a.len() == b.len() && forall|i: int| 0 <= i < a.len() ==> char_ci_eq(a[i], b[i])
}

/// Position of the dot starting the extension of a path, or -1 when the
/// path has no extension. A dot opens an extension only when it stands
/// strictly after the first character of the file-name component, so hidden
/// files such as `.config` carry no extension.
pub open spec fn spec_extension_dot(s: Seq<char>) -> int {
    if last_index_of(s, '.') >= last_index_of(s, '/') + 2 {
        last_index_of(s, '.')
    } else {
        -1
    }
}

/// The extension of a path, without its dot.
pub open spec fn spec_extension(s: Seq<char>) -> Option<Seq<char>> {
    if spec_extension_dot(s) >= 0 {
        Some(s.subrange(spec_extension_dot(s) + 1, s.len() as int))
    } else {
        None
    }
}

/// The path with its extension (dot included) removed; the path itself
/// when it has none.
pub open spec fn spec_without_extension(s: Seq<char>) -> Seq<char> {
    if spec_extension_dot(s) >= 0 {
        s.subrange(0, spec_extension_dot(s))
    } else {
        s
    }
}

/// Position of the extension dot of `path`, when it has one.
fn find_extension_dot(path: &str) -> (r: Option<usize>)
    ensures
        match r {
            Some(d) => spec_extension_dot(path@) == d && d < path@.len(),
            None => spec_extension_dot(path@) == -1,
        },
{
    proof {
        lemma_last_index_of_props(path@, '.');
        lemma_last_index_of_props(path@, '/');
    }
    let dot = rfind_char(path, '.');
    let slash = rfind_char(path, '/');
    match (dot, slash) {
        (Some(d), Some(i)) => if d > i && d - i > 1 {
            Some(d)
        } else {
            None
        },
        (Some(d), None) => if d >= 1 {
            Some(d)
        } else {
            None
        },
        (None, _) => None,
    }
}

/// The extension of a path, or `None` when it has none.
pub fn get_extension(path: &str) -> (r: Option<String>)
    ensures
        match r {
            Some(e) => spec_extension(path@) matches Some(x) && e@ == x,
            None => spec_extension(path@) is None,
        },
{
    let n = s_len(path);
    match find_extension_dot(path) {
        Some(d) => Some(path.substring_char(d + 1, n).to_owned()),
        None => None,
    }
}

/// The path with its extension removed.
pub fn strip_extension(path: &str) -> (r: String)
    ensures
        r@ == spec_without_extension(path@),
{
    match find_extension_dot(path) {
        Some(d) => path.substring_char(0, d).to_owned(),
        None => path.to_owned(),
    }
}

/// A component of the path equal to `name` starts at index `i`: the range
/// matches `name` and is delimited by separators or the path's ends.
pub open spec fn component_at(s: Seq<char>, name: Seq<char>, i: int) -> bool {
    &&& 0 <= i
    &&& i + name.len() <= s.len()
    &&& s.subrange(i, i + name.len()) == name
    &&& (i == 0 || s[i - 1] == '/')
    &&& (i + name.len() == s.len() || s[i + name.len()] == '/')
}

/// The path holds `name` as one full `/`-delimited component.
pub open spec fn contains_component(s: Seq<char>, name: Seq<char>) -> bool {
    exists|i: int| component_at(s, name, i)
}

/// Whether a component equal to `name` starts at index `i` of `path`.
fn component_matches_at(path: &str, name: &str, i: usize) -> (r: bool)
    requires
        i + name@.len() <= path@.len(),
    ensures
        r == component_at(path@, name@, i as int),
{
    let n = s_len(path);
    let m = s_len(name);
    if !(i == 0 || path.get_char(i - 1) == '/') {
        return false;
    }
    if !(i + m == n || path.get_char(i + m) == '/') {
        return false;
    }
    let mut j: usize = 0;
    while j < m
        invariant
            n == path@.len(),
            m == name@.len(),
            i + m <= n,
            j <= m,
            i == 0 || path@[i as int - 1] == '/',
            i + m == n || path@[i as int + m as int] == '/',
            forall|k: int| 0 <= k < j ==> path@[i + k] == name@[k],
        decreases m - j,
    {
        if path.get_char(i + j) != name.get_char(j) {
            assert(!component_at(path@, name@, i as int)) by {
                if component_at(path@, name@, i as int) {
                    assert(path@.subrange(i as int, i + m as int)[j as int] == name@[j as int]);
                }
            }
            return false;
        }
        j = j + 1;
    }
    assert(path@.subrange(i as int, i + name@.len()) =~= name@);
    true
}

/// Whether `name` occurs in `path` as a full component.
pub fn has_component(path: &str, name: &str) -> (r: bool)
    requires
        name@.len() > 0,
    ensures
        r == contains_component(path@, name@),
{
    let n = s_len(path);
    let m = s_len(name);
    if m > n {
        assert(forall|i: int| !component_at(path@, name@, i));
        return false;
    }
    let bound = n - m;
    let mut i: usize = 0;
    while i <= bound
        invariant
            1 <= m <= n,
            n == path@.len(),
            m == name@.len(),
            bound == n - m,
            i <= bound + 1,
            forall|k: int| 0 <= k < i ==> !component_at(path@, name@, k),
        decreases bound + 1 - i,
    {
        if component_matches_at(path, name, i) {
            return true;
        }
        i = i + 1;
    }
    assert(forall|k: int| !component_at(path@, name@, k)) by {
        assert(forall|k: int| k > n - m ==> !component_at(path@, name@, k));
    }
    false
}

/// Index of the first occurrence of `c`, or -1 when it is absent.
pub open spec fn first_index_of(s: Seq<char>, c: char) -> int
    decreases s.len(),
{
    if s.len() == 0 {
        -1
    } else if s[0] == c {
        0
    } else {
        let r = first_index_of(s.drop_first(), c);
        if r == -1 {
            -1
        } else {
            r + 1
        }
    }
}

/// What `first_index_of` returns: the first index of `c`, or -1.
pub proof fn lemma_first_index_of_props(s: Seq<char>, c: char)
    ensures
        -1 <= first_index_of(s, c) < s.len(),
        first_index_of(s, c) >= 0 ==> s[first_index_of(s, c)] == c,
        forall|j: int| 0 <= j < first_index_of(s, c) ==> s[j] != c,
        first_index_of(s, c) == -1 ==> forall|j: int| 0 <= j < s.len() ==> s[j] != c,
    decreases s.len(),
{
    if s.len() > 0 && s[0] != c {
        lemma_first_index_of_props(s.drop_first(), c);
        let f = first_index_of(s, c);
        assert forall|j: int| 0 <= j < f implies s[j] != c by {
            if j > 0 {
                assert(s.drop_first()[j - 1] == s[j]);
            }
        }
        if f == -1 {
            assert forall|j: int| 0 <= j < s.len() implies s[j] != c by {
                if j > 0 {
                    assert(s.drop_first()[j - 1] == s[j]);
                }
            }
        }
    }
}

/// Index of the first occurrence of `c`, scanned from the front.
pub fn find_first_char(s: &str, c: char) -> (r: Option<usize>)
    ensures
        match r {
            Some(i) => i == first_index_of(s@, c),
            None => first_index_of(s@, c) == -1,
        },
{
    proof {
        lemma_first_index_of_props(s@, c);
    }
    let n = s.unicode_len();
    let mut i: usize = 0;
    while i < n
        invariant
            n == s@.len(),
            i <= n,
            forall|j: int| 0 <= j < i ==> s@[j] != c,
            -1 <= first_index_of(s@, c) < s@.len(),
            first_index_of(s@, c) >= 0 ==> s@[first_index_of(s@, c)] == c,
            forall|j: int| 0 <= j < first_index_of(s@, c) ==> s@[j] != c,
            first_index_of(s@, c) == -1 ==> forall|j: int| 0 <= j < s@.len() ==> s@[j] != c,
        decreases n - i,
    {
        if s.get_char(i) == c {
            return Some(i);
        }
        i = i + 1;
    }
    None
}

/// ASCII-case-insensitive string comparison.
pub fn eq_ignore_ascii_case(a: &str, b: &str) -> (r: bool)
    ensures
        r == chars_ci_eq(a@, b@),
{
    let na = s_len(a);
    let nb = s_len(b);
    if na != nb {
        return false;
    }
    let mut i: usize = 0;
    while i < na
        invariant
            i <= na,
            na == a@.len(),
            na == b@.len(),
            forall|j: int| 0 <= j < i ==> char_ci_eq(a@[j], b@[j]),
        decreases na - i,
    {
        let ca = a.get_char(i);
        let cb = b.get_char(i);
        let same = ca == cb || ('A' <= ca && ca <= 'Z' && cb as u32 == ca as u32 + 32) || ('A' <= cb
            && cb <= 'Z' && ca as u32 == cb as u32 + 32);
        if !same {
            return false;
        }
        i = i + 1;
    }
    true
}


/// The extensions accepted as images: tif, tiff, jpg, jpeg, png and
/// webp, ASCII case ignored.
pub open spec fn spec_is_image_extension(e: Seq<char>) -> bool {
    ||| chars_ci_eq(e, "tif"@)
    ||| chars_ci_eq(e, "tiff"@)
    ||| chars_ci_eq(e, "jpg"@)
    ||| chars_ci_eq(e, "jpeg"@)
    ||| chars_ci_eq(e, "png"@)
    ||| chars_ci_eq(e, "webp"@)
}

/// A path whose extension names an image format.
pub open spec fn spec_is_image_file(path: Seq<char>) -> bool {
    match spec_extension(path) {
        Some(e) => spec_is_image_extension(e),
        None => false,
    }
}

/// Whether the path's extension names an image format.
pub fn has_image_extension(path: &str) -> (r: bool)
    ensures
        r == spec_is_image_file(path@),
{
    match get_extension(path) {
        Some(e) => {
            let es = e.as_str();
            eq_ignore_ascii_case(es, "tif") || eq_ignore_ascii_case(es, "tiff")
                || eq_ignore_ascii_case(es, "jpg") || eq_ignore_ascii_case(es, "jpeg")
                || eq_ignore_ascii_case(es, "png") || eq_ignore_ascii_case(es, "webp")
        },
        None => false,
    }
}

/// Relies on std::path::Path::is_dir: an existence probe for a
/// directory that never raises.
#[verifier::external_body]
pub fn directory_exists(path: &str) -> bool {
    std::path::Path::new(path).is_dir()
}

/// Lexicographic order on character sequences, by code point: the empty
/// sequence first, a proper prefix before its extensions.
pub open spec fn chars_le(a: Seq<char>, b: Seq<char>) -> bool
    decreases a.len(),
{
    if a.len() == 0 {
        true
    } else if b.len() == 0 {
        false
    } else if (a[0] as u32) < (b[0] as u32) {
        true
    } else if (a[0] as u32) > (b[0] as u32) {
        false
    } else {
        chars_le(a.drop_first(), b.drop_first())
    }
}

/// The order is total.
pub proof fn lemma_chars_le_total(a: Seq<char>, b: Seq<char>)
    ensures
        chars_le(a, b) || chars_le(b, a),
    decreases a.len(),
{
    if a.len() > 0 && b.len() > 0 && (a[0] as u32) == (b[0] as u32) {
        lemma_chars_le_total(a.drop_first(), b.drop_first());
    }
}

/// The order is transitive.
pub proof fn lemma_chars_le_trans(a: Seq<char>, b: Seq<char>, c: Seq<char>)
    requires
        chars_le(a, b),
        chars_le(b, c),
    ensures
        chars_le(a, c),
    decreases a.len(),
{
    if a.len() > 0 {
        assert(b.len() > 0);
        assert(c.len() > 0);
        if (a[0] as u32) == (b[0] as u32) && (b[0] as u32) == (c[0] as u32) {
            lemma_chars_le_trans(a.drop_first(), b.drop_first(), c.drop_first());
        }
    }
}

/// Lexicographic comparison of two strings.
pub fn str_le(a: &str, b: &str) -> (r: bool)
    ensures
        r == chars_le(a@, b@),
{
    let la = a.unicode_len();
    let lb = b.unicode_len();
    proof {
        assert(a@.skip(0) =~= a@);
        assert(b@.skip(0) =~= b@);
    }
    let mut i: usize = 0;
    loop
        invariant
            i <= la,
            i <= lb,
            la == a@.len(),
            lb == b@.len(),
            chars_le(a@, b@) == chars_le(a@.skip(i as int), b@.skip(i as int)),
        decreases la - i,
    {
        if i == la {
            proof {
                assert(a@.skip(i as int) =~= Seq::<char>::empty());
            }
            return true;
        }
        if i == lb {
            proof {
                assert(b@.skip(i as int) =~= Seq::<char>::empty());
                assert(a@.skip(i as int).len() > 0);
            }
            return false;
        }
        let ca = a.get_char(i);
        let cb = b.get_char(i);
        proof {
            assert(a@.skip(i as int)[0] == a@[i as int]);
            assert(b@.skip(i as int)[0] == b@[i as int]);
        }
        if (ca as u32) < (cb as u32) {
            return true;
        }
        if (ca as u32) > (cb as u32) {
            return false;
        }
        proof {
            assert(a@.skip(i as int).drop_first() =~= a@.skip(i as int + 1));
            assert(b@.skip(i as int).drop_first() =~= b@.skip(i as int + 1));
        }
        i = i + 1;
    }
}

/// The file-name component of a path, possibly empty.
pub fn file_name_slice<'a>(s: &'a str) -> (r: &'a str)
    ensures
        r@ == spec_file_name(s@),
{
    proof {
        lemma_last_index_of_props(s@, '/');
    }
    let n = s.unicode_len();
    match rfind_char(s, '/') {
        Some(i) => s.substring_char(i + 1, n),
        None => {
            let r = s.substring_char(0, n);
            proof {
                assert(r@ =~= spec_file_name(s@));
            }
            r
        },
    }
}

/// Order of two paths by their file-name components.
pub open spec fn spec_name_le(a: Seq<char>, b: Seq<char>) -> bool {
    chars_le(spec_file_name(a), spec_file_name(b))
}

/// Compares two paths by their file-name components.
pub fn file_name_le(a: &str, b: &str) -> (r: bool)
    ensures
        r == spec_name_le(a@, b@),
{
    str_le(file_name_slice(a), file_name_slice(b))
}

/// A listing ordered by file name.
pub open spec fn spec_sorted_by_name(s: Seq<String>) -> bool {
    forall|p: int, q: int| 0 <= p < q < s.len() ==> spec_name_le(#[trigger] s[p]@, #[trigger] s[q]@)
}

/// Sorts a listing by file name, lexicographically by code point, so
/// that directory passes and page numbering are deterministic. The
/// result holds exactly the given paths.
pub fn sort_by_file_name(paths: Vec<String>) -> (r: Vec<String>)
    ensures
        spec_sorted_by_name(r@),
        r@.to_multiset() == paths@.to_multiset(),
        r@.len() == paths@.len(),
{
    let ghost orig = paths@;
    let mut v = paths;
    let n = v.len();
    let mut i: usize = 1;
    while i < n
        invariant
            n == v@.len(),
            1 <= i || n == 0,
            i <= n || n == 0,
            forall|p: int, q: int|
                0 <= p < q < i ==> spec_name_le(#[trigger] v@[p]@, #[trigger] v@[q]@),
            v@.to_multiset() == orig.to_multiset(),
        decreases n - i,
    {
        let mut j: usize = i;
        while j > 0 && !file_name_le(v[j - 1].as_str(), v[j].as_str())
            invariant
                n == v@.len(),
                j <= i < n,
                v@.to_multiset() == orig.to_multiset(),
                forall|p: int, q: int|
                    0 <= p < q <= i && q != j ==> spec_name_le(
                        #[trigger] v@[p]@,
                        #[trigger] v@[q]@,
                    ),
                forall|q: int|
                    j < q <= i ==> spec_name_le(v@[j as int]@, #[trigger] v@[q]@),
            decreases j,
        {
            proof {
                lemma_chars_le_total(
                    spec_file_name(v@[j as int - 1]@),
                    spec_file_name(v@[j as int]@),
                );
            }
            let ghost before = v@;
            let moving = v.remove(j - 1);
            v.insert(j, moving);
            proof {
                broadcast use vstd::seq_lib::group_to_multiset_ensures;
                broadcast use vstd::multiset::group_multiset_axioms;

                let x = before[j as int - 1];
                assert(v@ =~= before.update(j as int - 1, before[j as int]).update(j as int, x));
                assert(v@ == before.remove(j as int - 1).insert(j as int, x));
                assert(v@.to_multiset() == before.remove(j as int - 1).to_multiset().insert(x));
                assert(before.remove(j as int - 1).to_multiset() == before.to_multiset().remove(
                    x,
                ));
                assert(before.contains(x));
                assert(before.to_multiset().count(x) > 0);
                assert(before.to_multiset().remove(x).insert(x) =~= before.to_multiset());
                assert(v@.to_multiset() == before.to_multiset());
            }
            j = j - 1;
        }
        proof {
            if j > 0 {
                assert forall|p: int, q: int| 0 <= p < q <= i implies spec_name_le(
                    #[trigger] v@[p]@,
                    #[trigger] v@[q]@,
                ) by {
                    if q == j {
                        if p < j - 1 {
                            lemma_chars_le_trans(
                                spec_file_name(v@[p]@),
                                spec_file_name(v@[j as int - 1]@),
                                spec_file_name(v@[j as int]@),
                            );
                        }
                    }
                }
            }
        }
        i = i + 1;
    }
    v
}

} // verus!
