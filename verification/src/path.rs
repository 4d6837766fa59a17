use vstd::prelude::*;
use vstd::string::StrSliceExecFns;

use crate::error::BadExtensionError;
use crate::error::LogError;

verus! {

/// Index of the last occurrence of `c` in `s`, or `-1` when `c` does not
/// occur.
pub open spec fn last_index_of(s: Seq<char>, c: char) -> int
    decreases s.len(),
{
    if s.len() == 0 {
        -1
    } else if s.last() == c {
        s.len() - 1
    } else {
        last_index_of(s.drop_last(), c)
    }
}

pub proof fn lemma_last_index_of_bounds(s: Seq<char>, c: char)
    ensures
        -1 <= last_index_of(s, c) < s.len(),
    decreases s.len(),
{
    if s.len() > 0 && s.last() != c {
        lemma_last_index_of_bounds(s.drop_last(), c);
    }
}

pub proof fn lemma_last_index_of_props(s: Seq<char>, c: char)
    ensures
        last_index_of(s, c) >= 0 ==> s[last_index_of(s, c)] == c,
        forall|j: int| last_index_of(s, c) < j < s.len() ==> s[j] != c,
    decreases s.len(),
{
    lemma_last_index_of_bounds(s, c);
    if s.len() > 0 && s.last() != c {
        lemma_last_index_of_props(s.drop_last(), c);
        lemma_last_index_of_bounds(s.drop_last(), c);
        if last_index_of(s, c) >= 0 {
            assert(s.drop_last()[last_index_of(s, c)] == s[last_index_of(s, c)]);
        }
        assert forall|j: int| last_index_of(s, c) < j < s.len() implies s[j] != c by {
            if j < s.len() - 1 {
                assert(s.drop_last()[j] == s[j]);
            }
        }
    }
}

/// The final path component: the text after the last separator, or the whole
/// string when there is none.
pub open spec fn file_name_of(p: Seq<char>) -> Seq<char> {
    p.subrange(last_index_of(p, '/') + 1, p.len() as int)
}

/// The path with its final component removed: the text before the last
/// separator, the separator alone when it leads, and empty when there is
/// none.
pub open spec fn parent_of(p: Seq<char>) -> Seq<char> {
    let i = last_index_of(p, '/');
    if i < 0 {
        Seq::empty()
    } else if i == 0 {
        seq!['/']
    } else {
        p.subrange(0, i)
    }
}

/// The extension of a file name: the text after the last dot, provided that
/// dot is not the leading character; a name without such a dot has none.
pub open spec fn extension_of(name: Seq<char>) -> Option<Seq<char>> {
    let i = last_index_of(name, '.');
    if i <= 0 {
        None
    } else {
        Some(name.subrange(i + 1, name.len() as int))
    }
}

/// The stem of a file name: the text before the dot that starts the
/// extension, or the whole name when there is no extension.
pub open spec fn file_stem_of(name: Seq<char>) -> Seq<char> {
    let i = last_index_of(name, '.');
    if i <= 0 {
        name
    } else {
        name.subrange(0, i)
    }
}

/// The designated log extension.
pub open spec fn log_extension() -> Seq<char> {
    seq!['l', 'o', 'g']
}

/// A raw path is acceptable exactly when its final component's extension is
/// the designated log extension.
pub open spec fn valid_log_path(p: Seq<char>) -> bool {
    extension_of(file_name_of(p)) == Some(log_extension())
}

pub proof fn lemma_last_index_of_exact(s: Seq<char>, c: char, k: int)
    requires
        0 <= k < s.len(),
        s[k] == c,
        forall|j: int| k < j < s.len() ==> s[j] != c,
    ensures
        last_index_of(s, c) == k,
    decreases s.len(),
{
    if k < s.len() - 1 {
        assert(s.drop_last()[k] == s[k]);
        assert forall|j: int| k < j < s.drop_last().len() implies s.drop_last()[j] != c by {
            assert(s.drop_last()[j] == s[j]);
        }
        lemma_last_index_of_exact(s.drop_last(), c, k);
    }
}

/// Law: the validator's acceptance, stated over the raw text.  Every raw
/// path that ends in `.log` with at least one character other than the
/// separator just before that dot is a valid log path, so
/// [`create_path_from_str`] accepts it; by the same function's contract,
/// every other path is rejected with `InvalidExtension`.
pub proof fn lemma_log_suffix_accepted(p: Seq<char>)
    requires
        p.len() >= 5,
        p.subrange(p.len() - 4, p.len() as int) == seq!['.', 'l', 'o', 'g'],
        p[p.len() - 5] != '/',
    ensures
        valid_log_path(p),
{
    let n = p.len() as int;
    assert(p[n - 4] == '.' && p[n - 3] == 'l' && p[n - 2] == 'o' && p[n - 1] == 'g') by {
        assert(p.subrange(n - 4, n)[0] == p[n - 4]);
        assert(p.subrange(n - 4, n)[1] == p[n - 3]);
        assert(p.subrange(n - 4, n)[2] == p[n - 2]);
        assert(p.subrange(n - 4, n)[3] == p[n - 1]);
    }
    lemma_last_index_of_bounds(p, '/');
    lemma_last_index_of_props(p, '/');
    let ls = last_index_of(p, '/');
    assert(ls <= n - 6);
    let name = file_name_of(p);
    let m = name.len() as int;
    assert(m == n - ls - 1 >= 5);
    assert(forall|j: int| 0 <= j < m ==> name[j] == p[ls + 1 + j]);
    lemma_last_index_of_exact(name, '.', m - 4);
    assert(extension_of(name) == Some(name.subrange(m - 3, m)));
    assert(name.subrange(m - 3, m) =~= log_extension());
}

/// A valid log path is never its own parent: the file name takes at least
/// two characters, so the parent is a strictly shorter string, or a
/// different one-character string.
pub proof fn lemma_valid_path_not_parent(p: Seq<char>)
    requires
        valid_log_path(p),
    ensures
        parent_of(p) != p,
{
    lemma_last_index_of_bounds(p, '/');
    let ls = last_index_of(p, '/');
    let name = file_name_of(p);
    lemma_last_index_of_bounds(name, '.');
    assert(last_index_of(name, '.') > 0);
    assert(name.len() >= 2);
    if ls < 0 {
        assert(parent_of(p).len() == 0 && p.len() >= 2);
    } else if ls == 0 {
        assert(parent_of(p).len() == 1 && p.len() >= 3);
    } else {
        assert(parent_of(p).len() == ls < p.len());
    }
}

/// Index of the last occurrence of `c` in `s`, or `None` when `c` does not
/// occur.
fn find_last(s: &str, c: char) -> (r: Option<usize>)
    ensures
        match r {
            Some(i) => i as int == last_index_of(s@, c),
            None => last_index_of(s@, c) == -1,
        },
{
    let n = s.unicode_len();
    let mut i: usize = 0;
    let mut found: Option<usize> = None;
    while i < n
        invariant
            i <= n,
            n == s@.len(),
            match found {
                Some(k) => k as int == last_index_of(s@.take(i as int), c) && k < i,
                None => last_index_of(s@.take(i as int), c) == -1,
            },
        decreases n - i,
    {
        let ch = s.get_char(i);
        proof {
            assert(s@.take(i + 1).drop_last() =~= s@.take(i as int));
            assert(s@.take(i + 1).last() == s@[i as int]);
        }
        if ch == c {
            found = Some(i);
        }
        i = i + 1;
    }
    proof {
        assert(s@.take(n as int) =~= s@);
    }
    found
}

/// Whether two string slices hold the same characters.
fn str_eq(a: &str, b: &str) -> (r: bool)
    ensures
        r == (a@ == b@),
{
    let na = a.unicode_len();
    let nb = b.unicode_len();
    if na != nb {
        return false;
    }
    let mut i: usize = 0;
    while i < na
        invariant
            i <= na,
            na == a@.len(),
            na == b@.len(),
            forall|j: int| 0 <= j < i ==> a@[j] == b@[j],
        decreases na - i,
    {
        if a.get_char(i) != b.get_char(i) {
            return false;
        }
        i = i + 1;
    }
    proof {
        assert(a@ =~= b@);
    }
    true
}

/// The parent of a raw path string, as [`parent_of`] describes it.
pub fn parent_str(s: &str) -> (r: String)
    ensures
        r@ == parent_of(s@),
{
    match find_last(s, '/') {
        None => {
            let r = String::new();
            proof {
                assert(r@ =~= parent_of(s@));
            }
            r
        },
        Some(i) => {
            if i == 0 {
                let r = "/".to_owned();
                proof {
                    reveal_strlit("/");
                    assert(r@ =~= parent_of(s@));
                }
                r
            } else {
                proof {
                    lemma_last_index_of_bounds(s@, '/');
                }
                s.substring_char(0, i).to_owned()
            }
        },
    }
}

/// A validated file-system path: its final component carries the designated
/// log extension.  Built once by [`create_path_from_str`] and immutable
/// thereafter.
pub struct LogPath {
    raw: String,
}

impl View for LogPath {
    type V = Seq<char>;

    closed spec fn view(&self) -> Seq<char> {
        self.raw@
    }
}

impl LogPath {
    /// Well-formedness: the raw text names a file with the log extension.
    pub open spec fn wf(self) -> bool {
        valid_log_path(self@)
    }

    /// The raw path text.
    pub fn as_str(&self) -> (r: &str)
        ensures
            r@ == self@,
    {
        self.raw.as_str()
    }

    /// The raw path text, shaped as the optional conversion of a path type.
    pub fn to_str(&self) -> (r: Option<&str>)
        ensures
            r matches Some(s) && s@ == self@,
    {
        Some(self.raw.as_str())
    }

    /// The path with its final component removed.
    pub fn parent(&self) -> (r: String)
        ensures
            r@ == parent_of(self@),
    {
        parent_str(self.raw.as_str())
    }

    /// The extension of the final component.
    pub fn extension(&self) -> (r: Option<&str>)
        ensures
            match r {
                Some(e) => extension_of(file_name_of(self@)) == Some(e@),
                None => extension_of(file_name_of(self@)) is None,
            },
    {
        let s = self.raw.as_str();
        let n = s.unicode_len();
        let start = match find_last(s, '/') {
            None => 0,
            Some(i) => {
                proof {
                    lemma_last_index_of_bounds(s@, '/');
                }
                i + 1
            },
        };
        let name = s.substring_char(start, n);
        match find_last(name, '.') {
            None => None,
            Some(d) => {
                if d == 0 {
                    None
                } else {
                    proof {
                        lemma_last_index_of_bounds(name@, '.');
                    }
                    Some(name.substring_char(d + 1, name.unicode_len()))
                }
            },
        }
    }

    /// The final component without its extension.
    pub fn file_stem(&self) -> (r: Option<&str>)
        ensures
            r matches Some(st) && st@ == file_stem_of(file_name_of(self@)),
    {
        let s = self.raw.as_str();
        let n = s.unicode_len();
        let start = match find_last(s, '/') {
            None => 0,
            Some(i) => {
                proof {
                    lemma_last_index_of_bounds(s@, '/');
                }
                i + 1
            },
        };
        let name = s.substring_char(start, n);
        match find_last(name, '.') {
            None => Some(name),
            Some(d) => {
                if d == 0 {
                    Some(name)
                } else {
                    proof {
                        lemma_last_index_of_bounds(name@, '.');
                    }
                    Some(name.substring_char(0, d))
                }
            },
        }
    }
}

/// Parses a raw string into a validated [`LogPath`].  Succeeds exactly when
/// the final path component's extension is the designated log extension;
/// any other input fails with `InvalidExtension` and touches nothing.
pub fn create_path_from_str(text: &str) -> (r: Result<LogPath, LogError>)
    ensures
        r is Ok <==> valid_log_path(text@),
        r matches Ok(p) ==> p.wf() && p@ == text@,
        r matches Err(e) ==> e is InvalidExtension,
{
    let n = text.unicode_len();
    let start = match find_last(text, '/') {
        None => 0,
        Some(i) => {
            proof {
                lemma_last_index_of_bounds(text@, '/');
            }
            i + 1
        },
    };
    let name = text.substring_char(start, n);
    let ok = match find_last(name, '.') {
        None => false,
        Some(d) => {
            if d == 0 {
                false
            } else {
                proof {
                    lemma_last_index_of_bounds(name@, '.');
                }
                let ext = name.substring_char(d + 1, name.unicode_len());
                proof {
                    reveal_strlit("log");
                    assert("log"@ =~= log_extension());
                }
                str_eq(ext, "log")
            }
        },
    };
    if ok {
        Ok(LogPath { raw: text.to_owned() })
    } else {
        Err(LogError::InvalidExtension(BadExtensionError {
            message: "must use \".log\" extension in file name".to_owned(),
        }))
    }
}

} // verus!
