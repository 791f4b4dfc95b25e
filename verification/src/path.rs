//! Paths as the library reads them, the way `Path` reads them on Unix: text
//! in which `/` separates components, an empty component means nothing, a
//! `.` means nothing unless it opens a relative path, and a leading `/`
//! makes the path rooted. Where `\` is to read as `/` too (a relative file
//! name), the text is normalized first.
use vstd::prelude::*;
use crate::text::{
    views, split_spec, join_spec, split_chars, chars_equal, push_all, lemma_split_nonempty,
};

verus! {

/// `s` with every `\` turned into `/`.
pub open spec fn normalize(s: Seq<char>) -> Seq<char> {
    s.map_values(|c: char| if c == '\\' { '/' } else { c })
}

/// Whether a piece between separators names a component: it is neither empty
/// nor `.`.
pub open spec fn is_component(p: Seq<char>) -> bool {
    p.len() > 0 && p != seq!['.']
}

/// The pieces that name components, in order.
pub open spec fn keep_components(ps: Seq<Seq<char>>) -> Seq<Seq<char>>
    decreases ps.len(),
{
    if ps.len() == 0 {
        Seq::empty()
    } else if is_component(ps.last()) {
        keep_components(ps.drop_last()).push(ps.last())
    } else {
        keep_components(ps.drop_last())
    }
}

/// `.`, the current directory.
pub open spec fn cur_dir() -> Seq<char> {
    seq!['.']
}

/// The `.` that opens a relative path, which `Path::components` keeps as
/// its first component; nothing for any other path.
pub open spec fn leading_cur_dir(s: Seq<char>) -> Seq<Seq<char>> {
    if split_spec(s, '/')[0] == cur_dir() {
        seq![cur_dir()]
    } else {
        Seq::empty()
    }
}

/// The components of a normalized path: a `.` opening it, then every piece
/// between separators that is neither empty nor `.`.
pub open spec fn components(s: Seq<char>) -> Seq<Seq<char>> {
    leading_cur_dir(s) + keep_components(split_spec(s, '/'))
}

/// Whether a normalized path starts at the root.
pub open spec fn is_rooted(s: Seq<char>) -> bool {
    s.len() > 0 && s[0] == '/'
}

/// The components of `path` left after those of `base`, when `base` is a
/// component-wise prefix of `path` with the same rootedness.
pub open spec fn strip_prefix_spec(path: Seq<char>, base: Seq<char>) -> Option<Seq<Seq<char>>> {
    let p = components(path);
    let b = components(base);
    if is_rooted(path) == is_rooted(base) && b.is_prefix_of(p) {
        Some(p.skip(b.len() as int))
    } else {
        None
    }
}

/// `rel` appended to `base` the way `Path::join` appends it: a rooted `rel`
/// replaces `base`, and a separator is put between them unless `base` is
/// empty or already ends with one.
pub open spec fn path_join(base: Seq<char>, rel: Seq<char>) -> Seq<char> {
    if is_rooted(rel) {
        rel
    } else if base.len() == 0 || base.last() == '/' {
        base + rel
    } else {
        base.push('/') + rel
    }
}

/// The stem of a file name: what comes before its last `.`, or the whole
/// name when it has no `.` or its only `.` opens it.
pub open spec fn file_stem(name: Seq<char>) -> Seq<char> {
    if exists|i: int| 0 < i < name.len() && name[i] == '.' {
        let i = choose|i: int|
            0 < i < name.len() && name[i] == '.' && forall|j: int|
                i < j < name.len() ==> name[j] != '.';
        name.take(i)
    } else {
        name
    }
}

pub open spec fn src_dir() -> Seq<char> {
    seq!['s', 'r', 'c']
}

pub open spec fn tests_dir() -> Seq<char> {
    seq!['t', 'e', 's', 't', 's']
}

pub open spec fn parent_dir() -> Seq<char> {
    seq!['.', '.']
}


/// A piece holding no separator splits into itself alone.
pub proof fn lemma_split_free(p: Seq<char>, sep: char)
    requires
        !p.contains(sep),
    ensures
        split_spec(p, sep) == seq![p],
    decreases p.len(),
{
    if p.len() > 0 {
        assert(!p.drop_last().contains(sep)) by {
            if p.drop_last().contains(sep) {
                let k = choose|k: int| 0 <= k < p.drop_last().len() && p.drop_last()[k] == sep;
                assert(p[k] == sep);
            }
        }
        lemma_split_free(p.drop_last(), sep);
        assert(p.last() != sep) by {
            assert(p[p.len() - 1] == p.last());
        }
        assert(p.drop_last().push(p.last()) =~= p);
        assert(seq![p.drop_last()].update(0, p.drop_last().push(p.last())) =~= seq![p]);
    } else {
        assert(p =~= Seq::<char>::empty());
    }
}

/// Splitting text with a separator between two parts splits each part.
pub proof fn lemma_split_concat(a: Seq<char>, b: Seq<char>, sep: char)
    ensures
        split_spec(a + seq![sep] + b, sep) == split_spec(a, sep) + split_spec(b, sep),
    decreases b.len(),
{
    let s = a + seq![sep] + b;
    if b.len() == 0 {
        assert(s.drop_last() =~= a);
        assert(s.last() == sep);
        assert(split_spec(a, sep).push(Seq::<char>::empty()) =~= split_spec(a, sep)
            + split_spec(b, sep));
    } else {
        assert(s.drop_last() =~= a + seq![sep] + b.drop_last());
        assert(s.last() == b.last());
        lemma_split_concat(a, b.drop_last(), sep);
        lemma_split_nonempty(b.drop_last(), sep);
        let x = split_spec(a, sep);
        let y = split_spec(b.drop_last(), sep);
        if b.last() == sep {
            assert((x + y).push(Seq::<char>::empty()) =~= x + y.push(Seq::<char>::empty()));
        } else {
            assert((x + y).update((x + y).len() - 1, (x + y).last().push(b.last())) =~= x
                + y.update(y.len() - 1, y.last().push(b.last())));
        }
    }
}

/// Splitting what joining made gives the pieces back, when no piece holds
/// the separator.
pub proof fn lemma_split_join(ps: Seq<Seq<char>>, sep: char)
    requires
        ps.len() >= 1,
        forall|i: int| 0 <= i < ps.len() ==> !(#[trigger] ps[i]).contains(sep),
    ensures
        split_spec(join_spec(ps, sep), sep) == ps,
    decreases ps.len(),
{
    if ps.len() == 1 {
        lemma_split_free(ps[0], sep);
        assert(seq![ps[0]] =~= ps);
    } else {
        let front = ps.drop_last();
        assert forall|i: int| 0 <= i < front.len() implies !(#[trigger] front[i]).contains(sep) by {
            assert(front[i] == ps[i]);
        }
        lemma_split_join(front, sep);
        assert(join_spec(front, sep).push(sep) + ps.last() =~= join_spec(front, sep) + seq![sep]
            + ps.last());
        lemma_split_concat(join_spec(front, sep), ps.last(), sep);
        assert(!ps[ps.len() - 1].contains(sep));
        lemma_split_free(ps.last(), sep);
        assert(front + seq![ps.last()] =~= ps);
    }
}

/// Keeping the components of two lists one after the other keeps those of each.
pub proof fn lemma_keep_concat(x: Seq<Seq<char>>, y: Seq<Seq<char>>)
    ensures
        keep_components(x + y) == keep_components(x) + keep_components(y),
    decreases y.len(),
{
    if y.len() == 0 {
        assert(x + y =~= x);
        assert(keep_components(x) + keep_components(y) =~= keep_components(x));
    } else {
        assert((x + y).drop_last() =~= x + y.drop_last());
        assert((x + y).last() == y.last());
        lemma_keep_concat(x, y.drop_last());
        if is_component(y.last()) {
            assert((keep_components(x) + keep_components(y.drop_last())).push(y.last())
                =~= keep_components(x) + keep_components(y.drop_last()).push(y.last()));
        }
    }
}

/// A list made only of components keeps all of them.
pub proof fn lemma_keep_all(ps: Seq<Seq<char>>)
    requires
        forall|i: int| 0 <= i < ps.len() ==> is_component(#[trigger] ps[i]),
    ensures
        keep_components(ps) == ps,
    decreases ps.len(),
{
    if ps.len() > 0 {
        let front = ps.drop_last();
        assert forall|i: int| 0 <= i < front.len() implies is_component(#[trigger] front[i]) by {
            assert(front[i] == ps[i]);
        }
        lemma_keep_all(front);
        assert(is_component(ps[ps.len() - 1]));
        assert(front.push(ps.last()) =~= ps);
    }
}

/// The components of two paths written one after the other with a
/// separator between them, when the second does not open with `.`.
pub proof fn lemma_components_concat(a: Seq<char>, b: Seq<char>)
    requires
        leading_cur_dir(b).len() == 0,
    ensures
        components(a + seq!['/'] + b) == components(a) + components(b),
{
    lemma_split_concat(a, b, '/');
    lemma_split_nonempty(a, '/');
    lemma_split_nonempty(b, '/');
    assert((split_spec(a, '/') + split_spec(b, '/'))[0] == split_spec(a, '/')[0]);
    lemma_keep_concat(split_spec(a, '/'), split_spec(b, '/'));
    assert(leading_cur_dir(b) =~= Seq::<Seq<char>>::empty());
    assert(components(a + seq!['/'] + b) =~= components(a) + components(b));
}

/// Whether `p` can stand as one component of a path: it names a component
/// and holds no separator.
pub open spec fn is_plain_component(p: Seq<char>) -> bool {
    is_component(p) && !p.contains('/')
}

/// Components joined with `/` are read back as the same components.
pub proof fn lemma_components_join(ps: Seq<Seq<char>>)
    requires
        ps.len() >= 1,
        forall|i: int| 0 <= i < ps.len() ==> is_plain_component(#[trigger] ps[i]),
    ensures
        components(join_spec(ps, '/')) == ps,
        leading_cur_dir(join_spec(ps, '/')).len() == 0,
{
    assert forall|i: int| 0 <= i < ps.len() implies !(#[trigger] ps[i]).contains('/') by {
        assert(is_plain_component(ps[i]));
    }
    lemma_split_join(ps, '/');
    assert forall|i: int| 0 <= i < ps.len() implies is_component(#[trigger] ps[i]) by {
        assert(is_plain_component(ps[i]));
    }
    lemma_keep_all(ps);
    assert(is_component(ps[0]));
    assert(leading_cur_dir(join_spec(ps, '/')) =~= Seq::<Seq<char>>::empty());
    assert(components(join_spec(ps, '/')) =~= ps);
}

/// Text joined from plain components is not empty and does not start with `/`.
pub proof fn lemma_join_plain(ps: Seq<Seq<char>>)
    requires
        ps.len() >= 1,
        forall|i: int| 0 <= i < ps.len() ==> is_plain_component(#[trigger] ps[i]),
    ensures
        join_spec(ps, '/').len() > 0,
        join_spec(ps, '/')[0] != '/',
    decreases ps.len(),
{
    if ps.len() == 1 {
        assert(is_plain_component(ps[0]));
        assert(ps[0][0] != '/') by {
            if ps[0][0] == '/' {
                assert(ps[0].contains('/'));
            }
        }
    } else {
        let front = ps.drop_last();
        assert forall|i: int| 0 <= i < front.len() implies is_plain_component(
            #[trigger] front[i],
        ) by {
            assert(front[i] == ps[i]);
        }
        lemma_join_plain(front);
        let j = join_spec(front, '/').push('/') + ps.last();
        assert(j[0] == join_spec(front, '/')[0]);
    }
}

/// Normalizing text that holds no `\` leaves it unchanged.
pub proof fn lemma_normalize_plain(s: Seq<char>)
    requires
        !s.contains('\\'),
    ensures
        normalize(s) == s,
{
    assert forall|i: int| 0 <= i < s.len() implies normalize(s)[i] == s[i] by {
        if s[i] == '\\' {
            assert(s.contains('\\'));
        }
    }
    assert(normalize(s) =~= s);
}

/// Normalized text holds no `\`, so normalizing it again changes nothing.
pub proof fn lemma_normalize_idempotent(s: Seq<char>)
    ensures
        !normalize(s).contains('\\'),
        normalize(normalize(s)) == normalize(s),
{
    assert(!normalize(s).contains('\\')) by {
        if normalize(s).contains('\\') {
            let k = choose|k: int| 0 <= k < normalize(s).len() && normalize(s)[k] == '\\';
            assert(normalize(s)[k] == if s[k] == '\\' { '/' } else { s[k] });
        }
    }
    lemma_normalize_plain(normalize(s));
}

/// `s` with `\` turned into `/`.
pub fn normalize_chars(s: &[char]) -> (r: Vec<char>)
    ensures
        r@ == normalize(s@),
{
    let mut r: Vec<char> = Vec::new();
    let mut i: usize = 0;
    while i < s.len()
        invariant
            i <= s.len(),
            r@ == normalize(s@.take(i as int)),
        decreases s.len() - i,
    {
        let c = s[i];
        if c == '\\' {
            r.push('/');
        } else {
            r.push(c);
        }
        assert(normalize(s@.take(i + 1)) =~= normalize(s@.take(i as int)).push(
            if c == '\\' {
                '/'
            } else {
                c
            },
        ));
        i = i + 1;
    }
    assert(s@.take(i as int) =~= s@);
    r
}

fn is_component_exec(p: &Vec<char>) -> (r: bool)
    ensures
        r == is_component(p@),
{
    if p.len() == 0 {
        return false;
    }
    if p.len() == 1 && p[0] == '.' {
        assert(p@ =~= seq!['.']);
        return false;
    }
    proof {
        if p@ == seq!['.'] {
            assert(p@[0] == '.');
        }
    }
    true
}

/// The components of the path `s`.
pub fn components_of(s: &Vec<char>) -> (r: Vec<Vec<char>>)
    ensures
        views(r@) == components(s@),
{
    let pieces = split_chars(s, '/');
    proof {
        lemma_split_nonempty(s@, '/');
        assert(views(pieces@)[0] == pieces@[0]@);
    }
    let mut r: Vec<Vec<char>> = Vec::new();
    if pieces[0].len() == 1 && pieces[0][0] == '.' {
        let mut dot: Vec<char> = Vec::new();
        dot.push('.');
        r.push(dot);
        proof {
            assert(pieces@[0]@ =~= cur_dir());
            assert(views(r@) =~= leading_cur_dir(s@));
        }
    } else {
        proof {
            if pieces@[0]@ == cur_dir() {
                assert(pieces@[0]@.len() == 1 && pieces@[0]@[0] == '.');
            }
            assert(views(r@) =~= leading_cur_dir(s@));
        }
    }
    let ghost lead = views(r@);
    assert(lead + keep_components(views(pieces@).take(0)) =~= lead);
    let mut i: usize = 0;
    while i < pieces.len()
        invariant
            i <= pieces.len(),
            views(pieces@) == split_spec(s@, '/'),
            lead == leading_cur_dir(s@),
            views(r@) == lead + keep_components(views(pieces@).take(i as int)),
        decreases pieces.len() - i,
    {
        let ghost before = views(r@);
        proof {
            let t = views(pieces@).take(i + 1);
            assert(t.drop_last() =~= views(pieces@).take(i as int));
            assert(t.last() == pieces@[i as int]@);
        }
        if is_component_exec(&pieces[i]) {
            let p = pieces[i].clone();
            let ghost pv = p@;
            r.push(p);
            assert(views(r@) =~= before.push(pv));
            assert(lead + keep_components(views(pieces@).take(i + 1)) =~= before.push(pv));
        }
        i = i + 1;
    }
    assert(views(pieces@).take(i as int) =~= views(pieces@));
    r
}

/// Whether the component lists are equal.
fn same_components(a: &Vec<char>, b: &Vec<char>) -> (r: bool)
    ensures
        r == (a@ == b@),
{
    chars_equal(a.as_slice(), b.as_slice())
}

/// The components of `path` after those of `base`, or `None` when `base` is
/// not a prefix of it; both are taken as already normalized.
pub fn strip_prefix(path: &Vec<char>, base: &Vec<char>) -> (r: Option<Vec<Vec<char>>>)
    ensures
        match r {
            Some(rest) => strip_prefix_spec(path@, base@) == Some(views(rest@)),
            None => strip_prefix_spec(path@, base@) is None,
        },
{
    let path_rooted = path.len() > 0 && path[0] == '/';
    let base_rooted = base.len() > 0 && base[0] == '/';
    if path_rooted != base_rooted {
        return None;
    }
    let p = components_of(path);
    let b = components_of(base);
    assert(views(b@).len() == b@.len() && views(p@).len() == p@.len());
    if b.len() > p.len() {
        assert(!components(base@).is_prefix_of(components(path@)));
        return None;
    }
    let mut i: usize = 0;
    while i < b.len()
        invariant
            i <= b.len(),
            b.len() <= p.len(),
            views(b@) == components(base@),
            views(p@) == components(path@),
            forall|k: int| 0 <= k < i ==> views(b@)[k] == views(p@)[k],
        decreases b.len() - i,
    {
        if !same_components(&b[i], &p[i]) {
            assert(views(b@)[i as int] != views(p@)[i as int]);
            return None;
        }
        i = i + 1;
    }
    let mut rest: Vec<Vec<char>> = Vec::new();
    let mut j: usize = b.len();
    while j < p.len()
        invariant
            b.len() <= j <= p.len(),
            views(rest@) == views(p@).subrange(b.len() as int, j as int),
        decreases p.len() - j,
    {
        let c = p[j].clone();
        let ghost before = views(rest@);
        let ghost cv = c@;
        rest.push(c);
        assert(views(rest@) =~= before.push(cv));
        assert(cv == views(p@)[j as int]);
        assert(views(rest@) =~= views(p@).subrange(b.len() as int, j + 1));
        j = j + 1;
    }
    assert(views(b@).is_prefix_of(views(p@)));
    assert(views(p@).skip(b.len() as int) =~= views(p@).subrange(b.len() as int, j as int));
    Some(rest)
}

/// `rel` joined onto `base`, as `Path::join` joins them.
pub fn join_path(base: &Vec<char>, rel: &Vec<char>) -> (r: Vec<char>)
    ensures
        r@ == path_join(base@, rel@),
{
    if rel.len() > 0 && rel[0] == '/' {
        return rel.clone();
    }
    let mut r = base.clone();
    if !(base.len() == 0 || base[base.len() - 1] == '/') {
        r.push('/');
    }
    push_all(&mut r, rel.as_slice());
    r
}

/// The stem of a file name.
pub fn file_stem_of(name: &Vec<char>) -> (r: Vec<char>)
    ensures
        r@ == file_stem(name@),
{
    let mut i: usize = name.len();
    while i > 0 && name[i - 1] != '.'
        invariant
            i <= name.len(),
            forall|j: int| i <= j < name.len() ==> name@[j] != '.',
        decreases i,
    {
        i = i - 1;
    }
    // `i` is one past the last dot, or 0 when there is none.
    if i <= 1 {
        assert(!exists|k: int| 0 < k < name@.len() && name@[k] == '.') by {
            if exists|k: int| 0 < k < name@.len() && name@[k] == '.' {
                let k = choose|k: int| 0 < k < name@.len() && name@[k] == '.';
                if i == 1 {
                    assert(k >= 1);
                } else {
                    assert(k >= 0);
                }
            }
        }
        return name.clone();
    }
    let dot = i - 1;
    assert(name@[dot as int] == '.');
    let mut r: Vec<char> = Vec::new();
    let mut k: usize = 0;
    while k < dot
        invariant
            k <= dot,
            dot < name.len(),
            r@ == name@.take(k as int),
        decreases dot - k,
    {
        r.push(name[k]);
        assert(name@.take(k + 1) =~= name@.take(k as int).push(name@[k as int]));
        k = k + 1;
    }
    proof {
        let w = choose|w: int|
            0 < w < name@.len() && name@[w] == '.' && forall|j: int|
                w < j < name@.len() ==> name@[j] != '.';
        assert(0 < dot < name@.len() && name@[dot as int] == '.' && forall|j: int|
            dot < j < name@.len() ==> name@[j] != '.');
        if w < dot {
            assert(name@[dot as int] != '.');
        }
        if w > dot {
            assert(name@[w] != '.');
        }
    }
    r
}

} // verus!
