//! Unix path strings: their components, file name, stem, extension and
//! parent folder, with the meaning `std::path::Path` gives them.
use vstd::prelude::*;

use crate::text::{chars_of, split_char, split_on, string_of, concat, concat3, owned};

verus! {

/// A component of a path, as `std::path::Component` names it.
pub enum Comp {
    Root,
    Cur,
    Parent,
    Normal(Seq<char>),
}

/// The component a non-empty piece between separators stands for.
pub open spec fn piece_comp(piece: Seq<char>) -> Comp {
    if piece == seq!['.', '.'] {
        Comp::Parent
    } else {
        Comp::Normal(piece)
    }
}

/// A piece that yields a component: not empty and not `.`.
pub open spec fn is_named_piece(piece: Seq<char>) -> bool {
    piece.len() > 0 && piece != seq!['.']
}

/// The components that the pieces yield, in order.
pub open spec fn piece_comps(pieces: Seq<Seq<char>>) -> Seq<Comp>
    decreases pieces.len(),
{
    if pieces.len() == 0 {
        Seq::empty()
    } else {
        let init = piece_comps(pieces.drop_last());
        if is_named_piece(pieces.last()) {
            init.push(piece_comp(pieces.last()))
        } else {
            init
        }
    }
}

/// The components of `p` (`Path::components` on Unix): a root if `p`
/// starts with `/`, a current-directory component if `p` is `.` or starts
/// with `./`, then one component per piece between separators, leaving out
/// empty pieces and `.`.
pub open spec fn components(p: Seq<char>) -> Seq<Comp> {
    let head = if p.len() > 0 && p[0] == '/' {
        seq![Comp::Root]
    } else if p.len() > 0 && p[0] == '.' && (p.len() == 1 || p[1] == '/') {
        seq![Comp::Cur]
    } else {
        Seq::empty()
    };
    head + piece_comps(split_on(p, '/'))
}

/// The file name of `p` (`Path::file_name`): its last component, when that
/// is a normal one.
pub open spec fn file_name(p: Seq<char>) -> Option<Seq<char>> {
    let c = components(p);
    if c.len() > 0 && c.last() is Normal {
        Some(c.last()->Normal_0)
    } else {
        None
    }
}

/// The index of the last `.` in `s`, or -1.
pub open spec fn last_dot(s: Seq<char>) -> int
    decreases s.len(),
{
    if s.len() == 0 {
        -1
    } else if s.last() == '.' {
        s.len() - 1
    } else {
        last_dot(s.drop_last())
    }
}

/// The extension of a file name: what follows its last `.`, unless there
/// is no `.` or the only one starts the name.
pub open spec fn name_extension(name: Seq<char>) -> Option<Seq<char>> {
    let k = last_dot(name);
    if k <= 0 {
        None
    } else {
        Some(name.skip(k + 1))
    }
}

/// The stem of a file name: what precedes its last `.`, or the whole name
/// when there is no `.` or the only one starts the name.
pub open spec fn name_stem(name: Seq<char>) -> Seq<char> {
    let k = last_dot(name);
    if k <= 0 {
        name
    } else {
        name.take(k)
    }
}

/// The extension of `p` (`Path::extension`).
pub open spec fn extension(p: Seq<char>) -> Option<Seq<char>> {
    match file_name(p) {
        Some(n) => name_extension(n),
        None => None,
    }
}

/// The stem of `p` (`Path::file_stem`).
pub open spec fn file_stem(p: Seq<char>) -> Option<Seq<char>> {
    match file_name(p) {
        Some(n) => Some(name_stem(n)),
        None => None,
    }
}

/// The name of the folder that holds `p`: the file name of `p`'s parent
/// (`Path::parent` then `Path::file_name`), or empty when there is none.
pub open spec fn folder_name(p: Seq<char>) -> Seq<char> {
    let c = components(p);
    if c.len() > 0 && !(c.last() is Root) {
        let pc = c.drop_last();
        if pc.len() > 0 && pc.last() is Normal {
            pc.last()->Normal_0
        } else {
            Seq::empty()
        }
    } else {
        Seq::empty()
    }
}

/// `base` with `rel` appended (`PathBuf::join` on Unix): an absolute `rel`
/// replaces `base`; otherwise a separator is put between them unless `base`
/// is empty or already ends with one.
pub open spec fn join_path(base: Seq<char>, rel: Seq<char>) -> Seq<char> {
    if rel.len() > 0 && rel[0] == '/' {
        rel
    } else if base.len() > 0 && base.last() != '/' {
        base + seq!['/'] + rel
    } else {
        base + rel
    }
}

// ---------------------------------------------------------------------------

/// Whether `s` is `..`.
fn is_dot_dot(s: &String) -> (r: bool)
    ensures
        r == (s@ == seq!['.', '.']),
{
    let v = chars_of(s.as_str());
    if v.len() == 2 && v[0] == '.' && v[1] == '.' {
        assert(v@ =~= seq!['.', '.']);
        true
    } else {
        false
    }
}

/// Whether `s` names a component (not empty and not `.`).
fn is_named(s: &String) -> (r: bool)
    ensures
        r == is_named_piece(s@),
{
    let v = chars_of(s.as_str());
    if v.len() == 0 {
        false
    } else if v.len() == 1 && v[0] == '.' {
        assert(v@ =~= seq!['.']);
        false
    } else {
        true
    }
}

/// The last two components of `p`, when `p` has them: the normal names
/// are returned as strings. Returns `(count capped at 2, last, before last)`
/// where each is `None` for a missing or non-normal component.
fn last_components(p: &str) -> (r: (usize, Option<String>, Option<String>, bool))
    ensures
        r.0 == if components(p@).len() >= 2 { 2 } else { components(p@).len() },
        r.0 >= 1 ==> (r.1 is Some <==> components(p@).last() is Normal),
        r.0 >= 1 && r.1 is Some ==> r.1->0@ == components(p@).last()->Normal_0,
        r.0 >= 1 ==> (r.3 <==> components(p@).last() is Root),
        r.0 >= 2 ==> (r.2 is Some <==> components(p@)[components(p@).len() - 2] is Normal),
        r.0 >= 2 && r.2 is Some ==> r.2->0@ == components(p@)[components(p@).len() - 2]->Normal_0,
{
    let v = chars_of(p);
    let pieces = split_char(p, '/');
    let ghost ps = pieces.deep_view();
    let ghost head = if p@.len() > 0 && p@[0] == '/' {
        seq![Comp::Root]
    } else if p@.len() > 0 && p@[0] == '.' && (p@.len() == 1 || p@[1] == '/') {
        seq![Comp::Cur]
    } else {
        Seq::<Comp>::empty()
    };
    // The head component, if any, stands before all named pieces.
    let head_root = v.len() > 0 && v[0] == '/';
    let head_cur = !head_root && v.len() > 0 && v[0] == '.' && (v.len() == 1 || v[1] == '/');
    let mut n: usize = if head_root || head_cur { 1 } else { 0 };
    let mut last: Option<String> = None;
    let mut last_root = head_root;
    let mut prev: Option<String> = None;
    let mut i: usize = 0;
    while i < pieces.len()
        invariant
            v@ == p@,
            ps == pieces.deep_view(),
            ps == split_on(p@, '/'),
            i <= pieces.len(),
            head.len() <= 1,
            head_root == (head.len() == 1 && head[0] is Root),
            ({
                let c = head + piece_comps(ps.take(i as int));
                &&& n == if c.len() >= 2 { 2 } else { c.len() }
                &&& n >= 1 ==> (last is Some <==> c.last() is Normal)
                &&& n >= 1 && last is Some ==> last->0@ == c.last()->Normal_0
                &&& n >= 1 ==> (last_root <==> c.last() is Root)
                &&& n >= 2 ==> (prev is Some <==> c[c.len() - 2] is Normal)
                &&& n >= 2 && prev is Some ==> prev->0@ == c[c.len() - 2]->Normal_0
            }),
        decreases pieces.len() - i,
    {
        proof {
            assert(ps.take(i + 1).drop_last() =~= ps.take(i as int));
            assert(ps.take(i + 1).last() == pieces@[i as int]@);
        }
        if is_named(&pieces[i]) {
            let was_normal = last.is_some();
            let moved = last;
            prev = if was_normal { moved } else { None };
            if is_dot_dot(&pieces[i]) {
                last = None;
            } else {
                last = Some(pieces[i].clone());
            }
            last_root = false;
            if n < 2 {
                n = n + 1;
            }
        }
        i = i + 1;
    }
    proof {
        assert(ps.take(ps.len() as int) =~= ps);
    }
    (n, last, prev, last_root)
}

/// The file name of `p` (`Path::file_name`).
pub fn path_file_name(p: &str) -> (r: Option<String>)
    ensures
        r is Some <==> file_name(p@) is Some,
        r is Some ==> r->0@ == file_name(p@)->0,
{
    let (n, last, _prev, _root) = last_components(p);
    if n == 0 {
        None
    } else {
        last
    }
}

/// The index of the last `.` in `v`, or `None`.
fn last_dot_index(v: &Vec<char>) -> (r: Option<usize>)
    ensures
        r is None <==> last_dot(v@) == -1,
        r is Some ==> r->0 == last_dot(v@),
        last_dot(v@) < v@.len(),
{
    let mut i = v.len();
    let mut r: Option<usize> = None;
    proof {
        lemma_last_dot_range(v@);
        assert(v@.take(v.len() as int) =~= v@);
    }
    while i > 0
        invariant
            i <= v.len(),
            last_dot(v@) < v@.len(),
            r is Some ==> r->0 == last_dot(v@),
            r is None ==> last_dot(v@) == last_dot(v@.take(i as int)),
        decreases i,
    {
        if r.is_none() {
            proof {
                assert(v@.take(i as int).drop_last() =~= v@.take(i - 1));
            }
            if v[i - 1] == '.' {
                r = Some(i - 1);
            }
        }
        i = i - 1;
    }
    proof {
        assert(v@.take(0) =~= Seq::<char>::empty());
    }
    r
}

proof fn lemma_last_dot_range(s: Seq<char>)
    ensures
        -1 <= last_dot(s) < s.len(),
        last_dot(s) >= 0 ==> s[last_dot(s)] == '.',
    decreases s.len(),
{
    if s.len() > 0 && s.last() != '.' {
        lemma_last_dot_range(s.drop_last());
    }
}

/// The extension of a file name.
fn name_extension_of(name: &String) -> (r: Option<String>)
    ensures
        r is Some <==> name_extension(name@) is Some,
        r is Some ==> r->0@ == name_extension(name@)->0,
{
    let v = chars_of(name.as_str());
    let d = last_dot_index(&v);
    match d {
        Some(k) => {
            assert(k < v.len());
            if k == 0 {
                None
            } else {
                Some(string_of(&v, k + 1, v.len()))
            }
        },
        None => None,
    }
}

/// The stem of a file name.
fn name_stem_of(name: &String) -> (r: String)
    ensures
        r@ == name_stem(name@),
{
    let v = chars_of(name.as_str());
    match last_dot_index(&v) {
        Some(k) => {
            if k == 0 {
                string_of(&v, 0, v.len())
            } else {
                string_of(&v, 0, k)
            }
        },
        None => string_of(&v, 0, v.len()),
    }
}

/// The extension of `p` (`Path::extension`).
pub fn path_extension(p: &str) -> (r: Option<String>)
    ensures
        r is Some <==> extension(p@) is Some,
        r is Some ==> r->0@ == extension(p@)->0,
{
    match path_file_name(p) {
        Some(n) => name_extension_of(&n),
        None => None,
    }
}

/// The stem of `p` (`Path::file_stem`).
pub fn path_file_stem(p: &str) -> (r: Option<String>)
    ensures
        r is Some <==> file_stem(p@) is Some,
        r is Some ==> r->0@ == file_stem(p@)->0,
{
    match path_file_name(p) {
        Some(n) => Some(name_stem_of(&n)),
        None => None,
    }
}

/// The name of the folder holding `p`, or empty (the folder label of a
/// search result).
pub fn extract_folder(p: &str) -> (r: String)
    ensures
        r@ == folder_name(p@),
{
    let (n, _last, prev, last_root) = last_components(p);
    if n >= 1 && !last_root {
        if n >= 2 {
            match prev {
                Some(s) => s,
                None => String::new(),
            }
        } else {
            String::new()
        }
    } else {
        String::new()
    }
}

/// `base` joined with `rel` (`PathBuf::join` on Unix).
pub fn join(base: &str, rel: &str) -> (r: String)
    ensures
        r@ == join_path(base@, rel@),
{
    let vb = chars_of(base);
    let vr = chars_of(rel);
    if vr.len() > 0 && vr[0] == '/' {
        owned(rel)
    } else if vb.len() > 0 && vb[vb.len() - 1] != '/' {
        proof {
            reveal_strlit("/");
        }
        concat3(base, "/", rel)
    } else {
        concat(base, rel)
    }
}

/// A component of a path (`std::path::Component` on Unix).
pub enum PathComponent {
    RootDir,
    CurDir,
    ParentDir,
    Normal(String),
}

impl DeepView for PathComponent {
    type V = Comp;

    open spec fn deep_view(&self) -> Comp {
        match self {
            PathComponent::RootDir => Comp::Root,
            PathComponent::CurDir => Comp::Cur,
            PathComponent::ParentDir => Comp::Parent,
            PathComponent::Normal(s) => Comp::Normal(s@),
        }
    }
}

/// The components of `p` (`Path::components` on Unix).
pub fn path_components(p: &str) -> (r: Vec<PathComponent>)
    ensures
        r.deep_view() == components(p@),
{
    let v = chars_of(p);
    let pieces = split_char(p, '/');
    let ghost ps = pieces.deep_view();
    let ghost head = if p@.len() > 0 && p@[0] == '/' {
        seq![Comp::Root]
    } else if p@.len() > 0 && p@[0] == '.' && (p@.len() == 1 || p@[1] == '/') {
        seq![Comp::Cur]
    } else {
        Seq::<Comp>::empty()
    };
    let mut r: Vec<PathComponent> = Vec::new();
    if v.len() > 0 && v[0] == '/' {
        r.push(PathComponent::RootDir);
    } else if v.len() > 0 && v[0] == '.' && (v.len() == 1 || v[1] == '/') {
        r.push(PathComponent::CurDir);
    }
    proof {
        assert(r.deep_view() =~= head);
        assert(ps.take(0) =~= Seq::<Seq<char>>::empty());
        assert(head + piece_comps(ps.take(0)) =~= head);
    }
    let mut i: usize = 0;
    while i < pieces.len()
        invariant
            ps == pieces.deep_view(),
            i <= pieces.len(),
            r.deep_view() == head + piece_comps(ps.take(i as int)),
        decreases pieces.len() - i,
    {
        proof {
            assert(ps.take(i + 1).drop_last() =~= ps.take(i as int));
            assert(ps.take(i + 1).last() == pieces@[i as int]@);
        }
        if is_named(&pieces[i]) {
            let ghost before = r.deep_view();
            if is_dot_dot(&pieces[i]) {
                r.push(PathComponent::ParentDir);
            } else {
                r.push(PathComponent::Normal(pieces[i].clone()));
            }
            proof {
                assert(r.deep_view() =~= before.push(piece_comp(ps[i as int])));
                assert(head + piece_comps(ps.take(i + 1)) =~= (head + piece_comps(ps.take(i as int))).push(piece_comp(ps[i as int])));
            }
        }
        i = i + 1;
    }
    proof {
        assert(ps.take(ps.len() as int) =~= ps);
    }
    r
}

/// Whether two paths have the same components (`PathBuf`'s `==`, which
/// ignores repeated and trailing separators and `.` pieces).
pub fn same_path(a: &str, b: &str) -> (r: bool)
    ensures
        r == (components(a@) == components(b@)),
{
    let ca = path_components(a);
    let cb = path_components(b);
    if ca.len() != cb.len() {
        proof {
            assert(ca.deep_view().len() != cb.deep_view().len());
        }
        return false;
    }
    let mut i: usize = 0;
    while i < ca.len()
        invariant
            ca.deep_view() == components(a@),
            cb.deep_view() == components(b@),
            ca.len() == cb.len(),
            i <= ca.len(),
            forall|j: int| 0 <= j < i ==> ca.deep_view()[j] == cb.deep_view()[j],
        decreases ca.len() - i,
    {
        let same = match (&ca[i], &cb[i]) {
            (PathComponent::RootDir, PathComponent::RootDir) => true,
            (PathComponent::CurDir, PathComponent::CurDir) => true,
            (PathComponent::ParentDir, PathComponent::ParentDir) => true,
            (PathComponent::Normal(x), PathComponent::Normal(y)) => crate::text::str_eq(x.as_str(), y.as_str()),
            _ => false,
        };
        if !same {
            proof {
                assert(ca.deep_view()[i as int] != cb.deep_view()[i as int]);
            }
            return false;
        }
        i = i + 1;
    }
    proof {
        assert(ca.deep_view() =~= cb.deep_view());
    }
    true
}

} // verus!
