//! Plugin paths: the final component of a path and its extension, with the
//! transparent `.ghost` suffix peeled away.

use vstd::prelude::*;
use vstd::string::StrSliceExecFns;

verus! {

/// A path separator.
pub open spec fn is_separator(c: char) -> bool {
    c == '/' || c == '\\'
}

/// The final component of a path: everything after the last separator, or
/// the whole path when it has none. Empty when the path ends in a
/// separator or is itself empty.
pub open spec fn spec_file_name(p: Seq<char>) -> Seq<char>
    decreases p.len(),
{
    if p.len() == 0 {
        p
    } else if is_separator(p.last()) {
        Seq::empty()
    } else {
        spec_file_name(p.drop_last()).push(p.last())
    }
}

/// The index of the last dot of a name, when it has one.
pub open spec fn spec_last_dot(name: Seq<char>) -> Option<int>
    decreases name.len(),
{
    if name.len() == 0 {
        None
    } else if name.last() == '.' {
        Some(name.len() - 1)
    } else {
        spec_last_dot(name.drop_last())
    }
}

/// A name's extension: everything after its last dot, unless the name has
/// no dot or only a leading one.
pub open spec fn spec_extension(name: Seq<char>) -> Option<Seq<char>> {
    match spec_last_dot(name) {
        Some(i) => if i > 0 {
            Some(name.skip(i + 1))
        } else {
            None
        },
        None => None,
    }
}

/// A name without its extension.
pub open spec fn spec_stem(name: Seq<char>) -> Seq<char> {
    match spec_last_dot(name) {
        Some(i) => if i > 0 {
            name.take(i)
        } else {
            name
        },
        None => name,
    }
}

/// The recognised plugin file extensions; `.ghost` is transparent, and the
/// extension before it is the one that counts.
#[derive(Clone, Copy, PartialEq, Eq, Structural, Debug)]
pub enum FileExtension {
    Esm,
    Esl,
    Ghosted,
    Unrecognised,
}

/// Whether the extension is `esm`, compared ASCII-case-insensitively.
pub open spec fn spec_is_esm(e: Seq<char>) -> bool {
    e.len() == 3 && (e[0] == 'e' || e[0] == 'E') && (e[1] == 's' || e[1] == 'S') && (e[2] == 'm'
        || e[2] == 'M')
}

/// Whether the extension is `esl`, compared ASCII-case-insensitively.
pub open spec fn spec_is_esl(e: Seq<char>) -> bool {
    e.len() == 3 && (e[0] == 'e' || e[0] == 'E') && (e[1] == 's' || e[1] == 'S') && (e[2] == 'l'
        || e[2] == 'L')
}

/// Whether the extension is `ghost`, compared ASCII-case-insensitively.
pub open spec fn spec_is_ghost(e: Seq<char>) -> bool {
    e.len() == 5 && (e[0] == 'g' || e[0] == 'G') && (e[1] == 'h' || e[1] == 'H') && (e[2] == 'o'
        || e[2] == 'O') && (e[3] == 's' || e[3] == 'S') && (e[4] == 't' || e[4] == 'T')
}

/// Which recognised extension an extension text is.
pub open spec fn spec_ext_kind(e: Seq<char>) -> FileExtension {
    if spec_is_esm(e) {
        FileExtension::Esm
    } else if spec_is_esl(e) {
        FileExtension::Esl
    } else if spec_is_ghost(e) {
        FileExtension::Ghosted
    } else {
        FileExtension::Unrecognised
    }
}

/// A path's recognised extension: the extension of its final component,
/// except that a `.ghost` extension is transparent and the extension just
/// before it is examined instead.
pub open spec fn spec_file_extension(p: Seq<char>) -> FileExtension {
    let name = spec_file_name(p);
    match spec_extension(name) {
        Some(e) => if spec_ext_kind(e) == FileExtension::Ghosted {
            match spec_extension(spec_stem(name)) {
                Some(e2) => spec_ext_kind(e2),
                None => FileExtension::Unrecognised,
            }
        } else {
            spec_ext_kind(e)
        },
        None => FileExtension::Unrecognised,
    }
}

/// The characters of a text, in order.
pub fn chars_of(s: &str) -> (r: Vec<char>)
    ensures
        r@ == s@,
{
    let n = s.unicode_len();
    let mut r: Vec<char> = Vec::new();
    let mut i: usize = 0;
    while i < n
        invariant
            i <= n,
            n == s@.len(),
            r@ == s@.take(i as int),
        decreases n - i,
    {
        r.push(s.get_char(i));
        proof {
            assert(s@.take(i + 1 as int) =~= s@.take(i as int).push(s@[i as int]));
        }
        i += 1;
    }
    proof {
        assert(s@.take(n as int) =~= s@);
    }
    r
}

/// Relies on String::push: it appends the character to the end of the
/// string.
#[verifier::external_body]
fn string_push_char(s: &mut String, c: char)
    ensures
        final(s)@ == old(s)@.push(c),
{
    s.push(c);
}

/// The text made of the given characters, in order.
pub fn string_of_chars(chars: &Vec<char>) -> (r: String)
    ensures
        r@ == chars@,
{
    let mut r = String::new();
    let mut i: usize = 0;
    while i < chars.len()
        invariant
            i <= chars@.len(),
            r@ == chars@.take(i as int),
        decreases chars@.len() - i,
    {
        string_push_char(&mut r, chars[i]);
        proof {
            assert(chars@.take(i + 1 as int) =~= chars@.take(i as int).push(chars@[i as int]));
        }
        i += 1;
    }
    proof {
        assert(chars@.take(chars@.len() as int) =~= chars@);
    }
    r
}

/// When no separator stands at or after index `k`, and index `k` either
/// opens the path or follows a separator, the final component is exactly
/// the characters from `k` on.
proof fn lemma_spec_file_name_at(p: Seq<char>, k: int)
    requires
        0 <= k <= p.len(),
        forall|j: int| k <= j < p.len() ==> !is_separator(#[trigger] p[j]),
        k > 0 ==> is_separator(p[k - 1]),
    ensures
        spec_file_name(p) == p.skip(k),
    decreases p.len(),
{
    if p.len() == 0 {
        assert(spec_file_name(p) =~= p.skip(k));
    } else if k == p.len() {
        assert(is_separator(p.last()));
        assert(spec_file_name(p) =~= p.skip(k));
    } else {
        assert(!is_separator(p.last()));
        lemma_spec_file_name_at(p.drop_last(), k);
        assert(spec_file_name(p) =~= p.drop_last().skip(k).push(p.last()));
        assert(p.drop_last().skip(k).push(p.last()) =~= p.skip(k));
    }
}

/// Whether the character before index `k` is not a separator.
fn no_separator_before(p: &Vec<char>, k: usize) -> (r: bool)
    requires
        1 <= k <= p@.len(),
    ensures
        r == !is_separator(p@[k - 1]),
{
    let c = p[k - 1];
    c != '/' && c != '\\'
}

/// Extracts the final component of a path.
pub fn file_name_chars(p: &Vec<char>) -> (r: Vec<char>)
    ensures
        r@ == spec_file_name(p@),
{
    let mut k: usize = p.len();
    while k > 0 && no_separator_before(p, k)
        invariant
            k <= p@.len(),
            forall|j: int| k <= j < p@.len() ==> !is_separator(#[trigger] p@[j]),
        decreases k,
    {
        k -= 1;
    }
    proof {
        lemma_spec_file_name_at(p@, k as int);
    }
    let mut r: Vec<char> = Vec::new();
    let mut i: usize = k;
    while i < p.len()
        invariant
            k <= i <= p@.len(),
            r@ == p@.subrange(k as int, i as int),
        decreases p@.len() - i,
    {
        r.push(p[i]);
        proof {
            assert(p@.subrange(k as int, i + 1 as int) =~= p@.subrange(k as int, i as int).push(
                p@[i as int],
            ));
        }
        i += 1;
    }
    proof {
        assert(p@.subrange(k as int, p@.len() as int) =~= p@.skip(k as int));
    }
    r
}

/// When no dot stands after index `i`, the last dot is at `i` when `i`
/// holds one, and the name has none otherwise.
proof fn lemma_spec_last_dot_at(name: Seq<char>, i: int)
    requires
        -1 <= i < name.len(),
        forall|j: int| i < j < name.len() ==> name[j] != '.',
        i >= 0 ==> name[i] == '.',
    ensures
        spec_last_dot(name) == if i >= 0 {
            Some(i)
        } else {
            None::<int>
        },
    decreases name.len(),
{
    if name.len() == 0 {
    } else if name.last() == '.' {
        assert(i == name.len() - 1);
    } else {
        lemma_spec_last_dot_at(name.drop_last(), i);
    }
}

/// Finds the index of the last dot of a name, when it has one.
pub fn last_dot_index(name: &Vec<char>) -> (r: Option<usize>)
    ensures
        match r {
            Some(i) => i < name@.len() && spec_last_dot(name@) == Some(i as int),
            None => spec_last_dot(name@) is None,
        },
{
    let mut k: usize = name.len();
    while k > 0
        invariant
            k <= name@.len(),
            forall|j: int| k <= j < name@.len() ==> name@[j] != '.',
        decreases k,
    {
        if name[k - 1] == '.' {
            proof {
                lemma_spec_last_dot_at(name@, k - 1);
            }
            return Some(k - 1);
        }
        k -= 1;
    }
    proof {
        lemma_spec_last_dot_at(name@, -1);
    }
    None
}

/// Which recognised extension the characters are.
pub fn ext_kind(e: &Vec<char>) -> (r: FileExtension)
    ensures
        r == spec_ext_kind(e@),
{
    if e.len() == 3 {
        let c0 = e[0];
        let c1 = e[1];
        let c2 = e[2];
        if (c0 == 'e' || c0 == 'E') && (c1 == 's' || c1 == 'S') {
            if c2 == 'm' || c2 == 'M' {
                return FileExtension::Esm;
            }
            if c2 == 'l' || c2 == 'L' {
                return FileExtension::Esl;
            }
        }
        FileExtension::Unrecognised
    } else if e.len() == 5 {
        let c0 = e[0];
        let c1 = e[1];
        let c2 = e[2];
        let c3 = e[3];
        let c4 = e[4];
        if (c0 == 'g' || c0 == 'G') && (c1 == 'h' || c1 == 'H') && (c2 == 'o' || c2 == 'O') && (c3
            == 's' || c3 == 'S') && (c4 == 't' || c4 == 'T') {
            FileExtension::Ghosted
        } else {
            FileExtension::Unrecognised
        }
    } else {
        FileExtension::Unrecognised
    }
}

/// Copies `chars[start..end]` into a fresh vector.
fn copy_chars(chars: &Vec<char>, start: usize, end: usize) -> (r: Vec<char>)
    requires
        start <= end <= chars@.len(),
    ensures
        r@ == chars@.subrange(start as int, end as int),
{
    let mut r: Vec<char> = Vec::new();
    let mut i: usize = start;
    while i < end
        invariant
            start <= i <= end <= chars@.len(),
            r@ == chars@.subrange(start as int, i as int),
        decreases end - i,
    {
        r.push(chars[i]);
        proof {
            assert(chars@.subrange(start as int, i + 1 as int) =~= chars@.subrange(
                start as int,
                i as int,
            ).push(chars@[i as int]));
        }
        i += 1;
    }
    r
}

/// The extension of a name, when it has one.
pub fn extension_chars(name: &Vec<char>) -> (r: Option<Vec<char>>)
    ensures
        match r {
            Some(e) => spec_extension(name@) == Some(e@),
            None => spec_extension(name@) is None,
        },
{
    let n = name.len();
    match last_dot_index(name) {
        Some(i) => {
            if i > 0 {
                let e = copy_chars(name, i + 1, n);
                proof {
                    assert(name@.subrange(i + 1 as int, name@.len() as int) =~= name@.skip(
                        i + 1 as int,
                    ));
                }
                Some(e)
            } else {
                None
            }
        },
        None => None,
    }
}

/// The stem of a name: the name without its extension.
pub fn stem_chars(name: &Vec<char>) -> (r: Vec<char>)
    ensures
        r@ == spec_stem(name@),
{
    match last_dot_index(name) {
        Some(i) => {
            if i > 0 {
                let s = copy_chars(name, 0, i);
                proof {
                    assert(name@.subrange(0, i as int) =~= name@.take(i as int));
                }
                s
            } else {
                copy_full(name)
            }
        },
        None => copy_full(name),
    }
}

fn copy_full(chars: &Vec<char>) -> (r: Vec<char>)
    ensures
        r@ == chars@,
{
    let r = copy_chars(chars, 0, chars.len());
    proof {
        assert(chars@.subrange(0, chars@.len() as int) =~= chars@);
    }
    r
}

/// Classifies a path's recognised extension, peeling one transparent
/// `.ghost` suffix.
pub fn file_extension_of(path: &str) -> (r: FileExtension)
    ensures
        r == spec_file_extension(path@),
{
    let chars = chars_of(path);
    let name = file_name_chars(&chars);
    match extension_chars(&name) {
        Some(e) => {
            let kind = ext_kind(&e);
            if matches!(kind, FileExtension::Ghosted) {
                let stem = stem_chars(&name);
                match extension_chars(&stem) {
                    Some(e2) => ext_kind(&e2),
                    None => FileExtension::Unrecognised,
                }
            } else {
                kind
            }
        },
        None => FileExtension::Unrecognised,
    }
}

} // verus!
