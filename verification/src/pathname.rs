//! Unix path names as text: joining, the final component, its extension and
//! component-wise prefixes, as `std::path::Path` defines them on Unix.
use vstd::prelude::*;
use crate::text::{chars_equal, push_chars, str_chars, string_from_chars};

verus! {

/// Position of the last `c` in `s`, if any.
pub open spec fn last_index_of(s: Seq<char>, c: char) -> Option<int>
    decreases s.len(),
{
    if s.len() == 0 {
        None
    } else if s.last() == c {
        Some(s.len() - 1)
    } else {
        last_index_of(s.drop_last(), c)
    }
}

pub proof fn lemma_last_index_of(s: Seq<char>, c: char)
    ensures
        match last_index_of(s, c) {
            Some(i) => 0 <= i < s.len() && s[i] == c && forall|j: int| i < j < s.len() ==> s[j]
                != c,
            None => forall|j: int| 0 <= j < s.len() ==> s[j] != c,
        },
    decreases s.len(),
{
    if s.len() > 0 && s.last() != c {
        let t = s.drop_last();
        lemma_last_index_of(t, c);
        assert(forall|j: int| 0 <= j < t.len() ==> t[j] == s[j]);
    }
}

/// The final component of a path, like `Path::file_name`: trailing slashes
/// and `.` components are skipped, and a final `..` has no name.
pub open spec fn file_name(p: Seq<char>) -> Option<Seq<char>>
    decreases p.len(),
{
    match last_index_of(p, '/') {
        None => if p.len() == 0 || p == seq!['.'] || p == seq!['.', '.'] {
            None
        } else {
            Some(p)
        },
        Some(i) => {
            let seg = p.subrange(i + 1, p.len() as int);
            if seg.len() == 0 || seg == seq!['.'] {
                proof {
                    lemma_last_index_of(p, '/');
                }
                file_name(p.subrange(0, i))
            } else if seg == seq!['.', '.'] {
                None
            } else {
                Some(seg)
            }
        },
    }
}

/// The extension of a file name, like `Path::extension` applied to a name:
/// the text after the last `.`, unless there is none or it starts the name.
pub open spec fn name_extension(name: Seq<char>) -> Option<Seq<char>> {
    match last_index_of(name, '.') {
        None => None,
        Some(i) => if i == 0 {
            None
        } else {
            Some(name.subrange(i + 1, name.len() as int))
        },
    }
}

/// `Path::extension`: the extension of the final component.
pub open spec fn extension(p: Seq<char>) -> Option<Seq<char>> {
    match file_name(p) {
        Some(n) => name_extension(n),
        None => None,
    }
}

/// `Path::join` on Unix: an absolute `part` replaces `base`; otherwise the
/// two are joined with one separator.
pub open spec fn join(base: Seq<char>, part: Seq<char>) -> Seq<char> {
    if part.len() > 0 && part[0] == '/' {
        part
    } else if base.len() == 0 {
        part
    } else if base.last() == '/' {
        base + part
    } else {
        base + seq!['/'] + part
    }
}

/// Position of the last `c` in `s`.
pub fn find_last(s: &Vec<char>, c: char) -> (r: Option<usize>)
    ensures
        match r {
            Some(i) => last_index_of(s@, c) == Some(i as int),
            None => last_index_of(s@, c) is None,
        },
{
    let mut i: usize = s.len();
    assert(s@.subrange(0, s.len() as int) =~= s@);
    while i > 0
        invariant
            i <= s.len(),
            last_index_of(s@, c) == last_index_of(s@.subrange(0, i as int), c),
        decreases i,
    {
        if s[i - 1] == c {
            assert(s@.subrange(0, i as int).last() == c);
            return Some(i - 1);
        }
        assert(s@.subrange(0, i as int).drop_last() =~= s@.subrange(0, i - 1));
        i -= 1;
    }
    assert(s@.subrange(0, 0) =~= Seq::<char>::empty());
    None
}

fn is_dot(s: &Vec<char>) -> (r: bool)
    ensures
        r == (s@ == seq!['.']),
{
    let r = s.len() == 1 && s[0] == '.';
    proof {
        if r {
            assert(s@ =~= seq!['.']);
        }
    }
    r
}

fn is_dot_dot(s: &Vec<char>) -> (r: bool)
    ensures
        r == (s@ == seq!['.', '.']),
{
    let r = s.len() == 2 && s[0] == '.' && s[1] == '.';
    proof {
        if r {
            assert(s@ =~= seq!['.', '.']);
        }
    }
    r
}

/// The final component of `p`.
pub fn file_name_chars(p: &Vec<char>) -> (r: Option<Vec<char>>)
    ensures
        match r {
            Some(n) => file_name(p@) == Some(n@),
            None => file_name(p@) is None,
        },
    decreases p.len(),
{
    match find_last(p, '/') {
        None => {
            if p.len() == 0 || is_dot(p) || is_dot_dot(p) {
                None
            } else {
                Some(p.clone())
            }
        },
        Some(i) => {
            proof {
                lemma_last_index_of(p@, '/');
            }
            let seg = crate::text::chars_range(p, i + 1, p.len());
            if seg.len() == 0 || is_dot(&seg) {
                let head = crate::text::chars_range(p, 0, i);
                file_name_chars(&head)
            } else if is_dot_dot(&seg) {
                None
            } else {
                Some(seg)
            }
        },
    }
}

/// The extension of the file name `name`.
pub fn name_extension_chars(name: &Vec<char>) -> (r: Option<Vec<char>>)
    ensures
        match r {
            Some(e) => name_extension(name@) == Some(e@),
            None => name_extension(name@) is None,
        },
{
    match find_last(name, '.') {
        None => None,
        Some(i) => {
            proof {
                lemma_last_index_of(name@, '.');
            }
            assert(i < name.len());
            if i == 0 {
                None
            } else {
                Some(crate::text::chars_range(name, i + 1, name.len()))
            }
        },
    }
}

/// The extension of the final component of `p`.
pub fn extension_chars(p: &Vec<char>) -> (r: Option<Vec<char>>)
    ensures
        match r {
            Some(e) => extension(p@) == Some(e@),
            None => extension(p@) is None,
        },
{
    match file_name_chars(p) {
        Some(n) => name_extension_chars(&n),
        None => None,
    }
}

/// `base` joined with `part`.
pub fn join_chars(base: &Vec<char>, part: &Vec<char>) -> (r: Vec<char>)
    ensures
        r@ == join(base@, part@),
{
    if part.len() > 0 && part[0] == '/' {
        part.clone()
    } else if base.len() == 0 {
        part.clone()
    } else {
        let mut out = base.clone();
        if base[base.len() - 1] != '/' {
            out.push('/');
        }
        push_chars(&mut out, part);
        out
    }
}

/// `Path::new(base).join(part)` as a string.
pub fn join_str(base: &str, part: &str) -> (r: String)
    ensures
        r@ == join(base@, part@),
{
    let b = str_chars(base);
    let p = str_chars(part);
    let joined = join_chars(&b, &p);
    string_from_chars(&joined)
}

/// The final component of the path `p` as a string.
pub fn file_name_str(p: &str) -> (r: Option<String>)
    ensures
        match r {
            Some(n) => file_name(p@) == Some(n@),
            None => file_name(p@) is None,
        },
{
    let chars = str_chars(p);
    match file_name_chars(&chars) {
        Some(n) => Some(string_from_chars(&n)),
        None => None,
    }
}

/// The extension of the path `p` as a string.
pub fn extension_str(p: &str) -> (r: Option<String>)
    ensures
        match r {
            Some(e) => extension(p@) == Some(e@),
            None => extension(p@) is None,
        },
{
    let chars = str_chars(p);
    match extension_chars(&chars) {
        Some(e) => Some(string_from_chars(&e)),
        None => None,
    }
}

/// Whether two character sequences are equal (shared helper).
pub fn same(a: &Vec<char>, b: &Vec<char>) -> (r: bool)
    ensures
        r == (a@ == b@),
{
    chars_equal(a, b)
}

/// The stem of a file name, like `Path::file_stem` applied to a name: the
/// text before the last `.`, unless there is none or it starts the name.
pub open spec fn name_stem(name: Seq<char>) -> Seq<char> {
    match last_index_of(name, '.') {
        None => name,
        Some(i) => if i == 0 {
            name
        } else {
            name.subrange(0, i)
        },
    }
}

/// `Path::file_stem`: the stem of the final component.
pub open spec fn file_stem(p: Seq<char>) -> Option<Seq<char>> {
    match file_name(p) {
        Some(n) => Some(name_stem(n)),
        None => None,
    }
}

/// The stem of the final component of `p`.
pub fn file_stem_str(p: &str) -> (r: Option<String>)
    ensures
        match r {
            Some(s) => file_stem(p@) == Some(s@),
            None => file_stem(p@) is None,
        },
{
    let chars = str_chars(p);
    match file_name_chars(&chars) {
        None => None,
        Some(name) => match find_last(&name, '.') {
            None => Some(string_from_chars(&name)),
            Some(i) => if i == 0 {
                Some(string_from_chars(&name))
            } else {
                proof {
                    lemma_last_index_of(name@, '.');
                }
                let mut stem: Vec<char> = Vec::new();
                let mut k: usize = 0;
                while k < i
                    invariant
                        k <= i,
                        i <= name@.len(),
                        stem@ == name@.subrange(0, k as int),
                    decreases i - k,
                {
                    stem.push(name[k]);
                    k += 1;
                    assert(stem@ =~= name@.subrange(0, k as int));
                }
                Some(string_from_chars(&stem))
            },
        },
    }
}

/// The parts of `s` between occurrences of `sep` (one part when there is
/// none).
pub open spec fn split_at_char(s: Seq<char>, sep: char) -> Seq<Seq<char>>
    decreases s.len(),
{
    if s.len() == 0 {
        seq![Seq::empty()]
    } else {
        let init = split_at_char(s.drop_last(), sep);
        if s.last() == sep {
            init.push(Seq::empty())
        } else {
            init.update(init.len() - 1, init.last().push(s.last()))
        }
    }
}

/// Whether a part between separators is a component: empty parts and `.`
/// are not, except `.` at the start of a relative path.
pub open spec fn kept_part(part: Seq<char>, leading_relative: bool) -> bool {
    part.len() > 0 && (part != seq!['.'] || leading_relative)
}

/// The components among the first `k` parts.
pub open spec fn kept_parts(parts: Seq<Seq<char>>, relative: bool, k: int) -> Seq<Seq<char>>
    decreases k,
{
    if k <= 0 {
        Seq::empty()
    } else {
        kept_parts(parts, relative, k - 1) + if kept_part(parts[k - 1], relative && k == 1) {
            seq![parts[k - 1]]
        } else {
            Seq::empty()
        }
    }
}

/// `Path::components` on Unix: the root (written `/`) of an absolute path,
/// then its names; repeated separators and `.` components vanish, except a
/// leading `.` of a relative path.
pub open spec fn components(p: Seq<char>) -> Seq<Seq<char>> {
    let parts = split_at_char(p, '/');
    if p.len() > 0 && p[0] == '/' {
        seq![seq!['/']] + kept_parts(parts, false, parts.len() as int)
    } else {
        kept_parts(parts, true, parts.len() as int)
    }
}

/// Splits `s` at each `sep`.
pub fn split_chars(s: &Vec<char>, sep: char) -> (r: Vec<Vec<char>>)
    ensures
        r@.map_values(|p: Vec<char>| p@) == split_at_char(s@, sep),
{
    let mut parts: Vec<Vec<char>> = Vec::new();
    let mut current: Vec<char> = Vec::new();
    let mut i: usize = 0;
    while i < s.len()
        invariant
            i <= s@.len(),
            parts@.map_values(|p: Vec<char>| p@).push(current@) == split_at_char(s@.take(i as int), sep),
        decreases s@.len() - i,
    {
        assert(s@.take(i + 1).drop_last() =~= s@.take(i as int));
        if s[i] == sep {
            parts.push(current);
            current = Vec::new();
            assert(parts@.map_values(|p: Vec<char>| p@).push(current@) =~= split_at_char(
                s@.take(i + 1),
                sep,
            ));
        } else {
            current.push(s[i]);
            assert(parts@.map_values(|p: Vec<char>| p@).push(current@) =~= split_at_char(
                s@.take(i + 1),
                sep,
            ));
        }
        i += 1;
    }
    assert(s@.take(i as int) =~= s@);
    parts.push(current);
    parts
}

/// The components of `p`.
pub fn components_of(p: &Vec<char>) -> (r: Vec<Vec<char>>)
    ensures
        r@.map_values(|c: Vec<char>| c@) == components(p@),
{
    let parts = split_chars(p, '/');
    let ghost views = parts@.map_values(|q: Vec<char>| q@);
    let absolute = p.len() > 0 && p[0] == '/';
    let mut out: Vec<Vec<char>> = Vec::new();
    if absolute {
        let mut root: Vec<char> = Vec::new();
        root.push('/');
        out.push(root);
    }
    let ghost head = out@.map_values(|c: Vec<char>| c@);
    assert(head =~= if absolute {
        seq![seq!['/']]
    } else {
        Seq::<Seq<char>>::empty()
    });
    let mut k: usize = 0;
    while k < parts.len()
        invariant
            k <= parts@.len(),
            views == parts@.map_values(|q: Vec<char>| q@),
            out@.map_values(|c: Vec<char>| c@) == head + kept_parts(views, !absolute, k as int),
        decreases parts@.len() - k,
    {
        let part = &parts[k];
        let leading = !absolute && k == 0;
        let keep = part.len() > 0 && (!(part.len() == 1 && part[0] == '.') || leading);
        assert(keep == kept_part(views[k as int], !absolute && k + 1 == 1)) by {
            if part.len() == 1 {
                assert(views[k as int] =~= seq![part@[0]]);
            }
        }
        let ghost before = out@.map_values(|c: Vec<char>| c@);
        assert(views[k as int] == part@);
        assert(kept_parts(views, !absolute, k + 1) == kept_parts(views, !absolute, k as int) + if keep {
            seq![views[k as int]]
        } else {
            Seq::<Seq<char>>::empty()
        });
        if keep {
            let mut copy: Vec<char> = Vec::new();
            push_chars(&mut copy, part);
            assert(copy@ =~= part@);
            out.push(copy);
            assert(out@.map_values(|c: Vec<char>| c@) =~= before.push(part@));
        } else {
            assert(before + Seq::<Seq<char>>::empty() =~= before);
        }
        k += 1;
        assert(out@.map_values(|c: Vec<char>| c@) =~= head + kept_parts(views, !absolute, k as int));
    }
    out
}

} // verus!
