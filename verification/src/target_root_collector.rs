//! The source roots of a package: the directories holding the entry files of
//! its production targets.
use vstd::prelude::*;
use crate::order::{
    components_less, components_before, lemma_components_irreflexive,
    lemma_components_transitive, lemma_components_total, lemma_components_prefix_less,
};
use crate::path::{components, is_rooted, path_join, components_of, join_path, src_dir};
use crate::text::{views, join_spec, chars_of, chars_equal, join_chars, string_of, string_is};

verus! {

/// A build target of a package: the kinds it is built as (`lib`, `bin`,
/// `test`, ...) and the path of its entry file.
#[derive(Debug, Clone, PartialEq, Eq)]
pub struct Target {
    pub kind: Vec<String>,
    pub src_path: String,
}

/// A path taken apart: whether it is rooted, and its components.
pub struct RootKey {
    pub rooted: bool,
    pub comps: Vec<Vec<char>>,
}

pub open spec fn key_view(k: RootKey) -> (bool, Seq<Seq<char>>) {
    (k.rooted, views(k.comps@))
}

pub open spec fn keys_view(ks: Seq<RootKey>) -> Seq<(bool, Seq<Seq<char>>)> {
    ks.map_values(|k: RootKey| key_view(k))
}

/// The order of `Path`: a rooted path before a relative one, then the
/// components in turn.
pub open spec fn key_less(a: (bool, Seq<Seq<char>>), b: (bool, Seq<Seq<char>>)) -> bool {
    (a.0 && !b.0) || (a.0 == b.0 && components_less(a.1, b.1))
}

/// The path read as a key.
pub open spec fn path_key(p: Seq<char>) -> (bool, Seq<Seq<char>>) {
    (is_rooted(p), components(p))
}

/// The directory holding `p`, as `Path::parent` gives it; `None` for a path
/// with no components.
pub open spec fn parent_key(p: Seq<char>) -> Option<(bool, Seq<Seq<char>>)> {
    let k = path_key(p);
    if k.1.len() == 0 {
        None
    } else {
        Some((k.0, k.1.drop_last()))
    }
}

/// The text of a path given as a key: a leading `/` when rooted, then the
/// components joined with `/`.
pub open spec fn render_key(k: (bool, Seq<Seq<char>>)) -> Seq<char> {
    if k.0 {
        seq!['/'] + join_spec(k.1, '/')
    } else {
        join_spec(k.1, '/')
    }
}

/// Whether `outer` is a proper ancestor of `inner`.
pub open spec fn is_proper_ancestor(outer: (bool, Seq<Seq<char>>), inner: (bool, Seq<Seq<char>>)) -> bool {
    outer.0 == inner.0 && outer.1.is_prefix_of(inner.1) && outer.1.len() < inner.1.len()
}

/// The keys of `ks` that no key of `all` is a proper ancestor of, in order.
pub open spec fn outermost(ks: Seq<(bool, Seq<Seq<char>>)>, all: Seq<(bool, Seq<Seq<char>>)>) -> Seq<
    (bool, Seq<Seq<char>>),
>
    decreases ks.len(),
{
    if ks.len() == 0 {
        Seq::empty()
    } else if exists|j: int| 0 <= j < all.len() && is_proper_ancestor(all[j], ks.last()) {
        outermost(ks.drop_last(), all)
    } else {
        outermost(ks.drop_last(), all).push(ks.last())
    }
}

/// A key is kept by `outermost` exactly when it is one of `ks` and no key
/// of `all` is a proper ancestor of it.
pub proof fn lemma_outermost_contains(
    ks: Seq<(bool, Seq<Seq<char>>)>,
    all: Seq<(bool, Seq<Seq<char>>)>,
    k: (bool, Seq<Seq<char>>),
)
    ensures
        outermost(ks, all).contains(k) <==> (ks.contains(k) && !exists|j: int|
            0 <= j < all.len() && is_proper_ancestor(all[j], k)),
    decreases ks.len(),
{
    if ks.len() > 0 {
        let rest = ks.drop_last();
        lemma_outermost_contains(rest, all, k);
        assert(ks =~= rest.push(ks.last()));
        if ks.contains(k) && k != ks.last() {
            let i = choose|i: int| 0 <= i < ks.len() && ks[i] == k;
            assert(rest[i] == k);
        }
        if rest.contains(k) {
            let i = choose|i: int| 0 <= i < rest.len() && rest[i] == k;
            assert(ks[i] == k);
        }
        if !exists|j: int| 0 <= j < all.len() && is_proper_ancestor(all[j], ks.last()) {
            let o = outermost(rest, all);
            assert(outermost(ks, all) == o.push(ks.last()));
            if o.contains(k) {
                let i = choose|i: int| 0 <= i < o.len() && o[i] == k;
                assert(o.push(ks.last())[i] == k);
            }
            if outermost(ks, all).contains(k) && k != ks.last() {
                let i = choose|i: int| 0 <= i < o.len() + 1 && o.push(ks.last())[i] == k;
                assert(o[i] == k);
            }
            assert(o.push(ks.last())[o.len() as int] == ks.last());
        }
    }
}

/// What `outermost` keeps of a sequence in strictly increasing order is in
/// strictly increasing order.
pub proof fn lemma_outermost_sorted(ks: Seq<(bool, Seq<Seq<char>>)>, all: Seq<(bool, Seq<Seq<char>>)>)
    requires
        sorted_keys(ks),
    ensures
        sorted_keys(outermost(ks, all)),
    decreases ks.len(),
{
    if ks.len() > 0 {
        let rest = ks.drop_last();
        assert(sorted_keys(rest));
        lemma_outermost_sorted(rest, all);
        let o = outermost(rest, all);
        if !exists|j: int| 0 <= j < all.len() && is_proper_ancestor(all[j], ks.last()) {
            let out = o.push(ks.last());
            assert forall|i: int, j: int| 0 <= i < j < out.len() implies key_less(
                #[trigger] out[i],
                #[trigger] out[j],
            ) by {
                if j == o.len() {
                    lemma_outermost_contains(rest, all, o[i]);
                    assert(o.contains(o[i]));
                    let m = choose|m: int| 0 <= m < rest.len() && rest[m] == o[i];
                    assert(ks[m] == rest[m]);
                    assert(key_less(ks[m], ks[ks.len() - 1]));
                } else {
                    assert(out[i] == o[i] && out[j] == o[j]);
                }
            }
        }
    }
}

/// Being a proper ancestor is transitive.
proof fn lemma_ancestor_transitive(
    a: (bool, Seq<Seq<char>>),
    b: (bool, Seq<Seq<char>>),
    c: (bool, Seq<Seq<char>>),
)
    requires
        is_proper_ancestor(a, b),
        is_proper_ancestor(b, c),
    ensures
        is_proper_ancestor(a, c),
{
    assert forall|i: int| 0 <= i < a.1.len() implies a.1[i] == c.1[i] by {
        assert(a.1[i] == b.1[i]);
    }
}

/// A root of `all` is kept by `outermost`, or lies below one that is.
proof fn lemma_outermost_covers(all: Seq<(bool, Seq<Seq<char>>)>, k: (bool, Seq<Seq<char>>))
    requires
        all.contains(k),
    ensures
        exists|o: (bool, Seq<Seq<char>>)|
            #[trigger] outermost(all, all).contains(o) && (o == k || is_proper_ancestor(o, k)),
    decreases k.1.len(),
{
    lemma_outermost_contains(all, all, k);
    if exists|j: int| 0 <= j < all.len() && is_proper_ancestor(all[j], k) {
        let j = choose|j: int| 0 <= j < all.len() && is_proper_ancestor(all[j], k);
        let a = all[j];
        assert(all.contains(a));
        lemma_outermost_covers(all, a);
        let o = choose|o: (bool, Seq<Seq<char>>)|
            #[trigger] outermost(all, all).contains(o) && (o == a || is_proper_ancestor(o, a));
        if o != a {
            lemma_ancestor_transitive(o, a, k);
        }
    } else {
        assert(outermost(all, all).contains(k));
    }
}

/// The roots walked: none lies inside another, and every collected root is
/// one of them or lies inside one of them, so that each file below a
/// collected root is walked exactly once.
pub proof fn walked_roots_cover_without_nesting(all: Seq<(bool, Seq<Seq<char>>)>)
    ensures
        forall|a: (bool, Seq<Seq<char>>), b: (bool, Seq<Seq<char>>)|
            #[trigger] outermost(all, all).contains(a) && #[trigger] outermost(all, all).contains(b)
                ==> !is_proper_ancestor(a, b),
        forall|k: (bool, Seq<Seq<char>>)|
            #[trigger] all.contains(k) ==> exists|o: (bool, Seq<Seq<char>>)|
                #[trigger] outermost(all, all).contains(o) && (o == k || is_proper_ancestor(o, k)),
{
    assert forall|a: (bool, Seq<Seq<char>>), b: (bool, Seq<Seq<char>>)|
        #[trigger] outermost(all, all).contains(a) && #[trigger] outermost(all, all).contains(b)
            implies !is_proper_ancestor(a, b) by {
        lemma_outermost_contains(all, all, a);
        lemma_outermost_contains(all, all, b);
        if is_proper_ancestor(a, b) {
            let i = choose|i: int| 0 <= i < all.len() && all[i] == a;
            assert(is_proper_ancestor(all[i], b));
        }
    }
    assert forall|k: (bool, Seq<Seq<char>>)| #[trigger] all.contains(k) implies exists|
        o: (bool, Seq<Seq<char>>),
    | #[trigger] outermost(all, all).contains(o) && (o == k || is_proper_ancestor(o, k)) by {
        lemma_outermost_covers(all, k);
    }
}

pub open spec fn is_excluded_kind(kind: Seq<char>) -> bool {
    kind == seq!['t', 'e', 's', 't'] || kind == seq!['b', 'e', 'n', 'c', 'h'] || kind == seq![
        'e',
        'x',
        'a',
        'm',
        'p',
        'l',
        'e',
    ] || kind == seq!['c', 'u', 's', 't', 'o', 'm', '-', 'b', 'u', 'i', 'l', 'd']
}

pub open spec fn is_production_kind(kind: Seq<char>) -> bool {
    kind == seq!['l', 'i', 'b'] || kind == seq!['b', 'i', 'n'] || kind == seq![
        'p',
        'r',
        'o',
        'c',
        '-',
        'm',
        'a',
        'c',
        'r',
        'o',
    ] || kind == seq!['r', 'l', 'i', 'b'] || kind == seq!['d', 'y', 'l', 'i', 'b'] || kind
        == seq!['c', 'd', 'y', 'l', 'i', 'b'] || kind == seq![
        's',
        't',
        'a',
        't',
        'i',
        'c',
        'l',
        'i',
        'b',
    ]
}

/// Whether a target is built for production: none of its kinds is `test`,
/// `bench`, `example` or `custom-build`, and one is a library or binary kind.
pub open spec fn is_production(target: Target) -> bool {
    &&& forall|i: int|
        0 <= i < target.kind@.len() ==> !is_excluded_kind(#[trigger] target.kind@[i]@)
    &&& exists|i: int| 0 <= i < target.kind@.len() && is_production_kind(#[trigger] target.kind@[i]@)
}

/// Whether the keys are strictly increasing in the order of `Path`, hence
/// free of repeats.
pub open spec fn sorted_keys(ks: Seq<(bool, Seq<Seq<char>>)>) -> bool {
    forall|i: int, j: int| 0 <= i < j < ks.len() ==> key_less(#[trigger] ks[i], #[trigger] ks[j])
}

/// Whether the two texts name the same path: same rootedness, same
/// components.
pub fn same_path(a: &str, b: &str) -> (r: bool)
    ensures
        r == (path_key(a@) == path_key(b@)),
{
    let na = chars_of(a);
    let nb = chars_of(b);
    let ra = na.len() > 0 && na[0] == '/';
    let rb = nb.len() > 0 && nb[0] == '/';
    if ra != rb {
        return false;
    }
    let ca = components_of(&na);
    let cb = components_of(&nb);
    TargetRootCollector::same_components(&ca, &cb)
}

#[derive(Default)]
pub struct TargetRootCollector {
    source_roots: Vec<RootKey>,
}

impl TargetRootCollector {
    /// The collected roots, in the order of `Path`.
    pub closed spec fn roots(&self) -> Seq<(bool, Seq<Seq<char>>)> {
        keys_view(self.source_roots@)
    }

    #[verifier::type_invariant]
    closed spec fn sorted(&self) -> bool {
        sorted_keys(keys_view(self.source_roots@))
    }

    pub fn new() -> (r: Self)
        ensures
            r.roots().len() == 0,
    {
        TargetRootCollector { source_roots: Vec::new() }
    }

    /// Adds the directory holding the entry file of each production target.
    pub fn collect_from_targets(&mut self, targets: &[Target])
        ensures
            forall|k: (bool, Seq<Seq<char>>)|
                final(self).roots().contains(k) <==> (old(self).roots().contains(k) || exists|i: int|
                    0 <= i < targets@.len() && is_production(#[trigger] targets@[i])
                        && parent_key(targets@[i].src_path@) == Some(k)),
    {
        proof {
            use_type_invariant(&*self);
        }
        let mut roots: Vec<RootKey> = Vec::new();
        std::mem::swap(&mut roots, &mut self.source_roots);
        let ghost start = keys_view(roots@);
        assert(start == old(self).roots());
        let mut i: usize = 0;
        while i < targets.len()
            invariant
                i <= targets.len(),
                sorted_keys(keys_view(roots@)),
                forall|k: (bool, Seq<Seq<char>>)|
                    #[trigger] keys_view(roots@).contains(k) <==> (start.contains(k) || exists|t: int|
                        0 <= t < i && is_production(#[trigger] targets@[t])
                            && parent_key(targets@[t].src_path@) == Some(k)),
            decreases targets.len() - i,
        {
            let ghost before = keys_view(roots@);
            let target = &targets[i];
            if Self::is_production_target(target) {
                let path = chars_of(target.src_path.as_str());
                let mut comps = components_of(&path);
                if comps.len() > 0 {
                    let ghost full = views(comps@);
                    comps.pop();
                    let key = RootKey { rooted: path.len() > 0 && path[0] == '/', comps };
                    proof {
                        assert(views(key.comps@) =~= full.drop_last());
                        assert(parent_key(target.src_path@) == Some(key_view(key)));
                    }
                    roots = Self::insert_sorted(roots, key);
                } else {
                    assert(parent_key(target.src_path@) is None);
                }
            }
            proof {
                assert forall|k: (bool, Seq<Seq<char>>)|
                    keys_view(roots@).contains(k) <==> (start.contains(k) || exists|t: int|
                        0 <= t < i + 1 && is_production(#[trigger] targets@[t])
                            && parent_key(targets@[t].src_path@) == Some(k)) by {
                    if exists|t: int|
                        0 <= t < i + 1 && is_production(#[trigger] targets@[t])
                            && parent_key(targets@[t].src_path@) == Some(k) {
                        let t = choose|t: int|
                            0 <= t < i + 1 && is_production(#[trigger] targets@[t])
                                && parent_key(targets@[t].src_path@) == Some(k);
                        if t < i {
                            assert(exists|t2: int|
                                0 <= t2 < i && is_production(#[trigger] targets@[t2])
                                    && parent_key(targets@[t2].src_path@) == Some(k));
                            assert(before.contains(k));
                        }
                    }
                }
            }
            i = i + 1;
        }
        self.source_roots = roots;
    }

    /// Adds `<manifest_dir>/src` when no root was collected.
    pub fn ensure_fallback(&mut self, manifest_dir: &str)
        ensures
            old(self).roots().len() == 0 ==> final(self).roots() == seq![
                path_key(path_join(manifest_dir@, src_dir())),
            ],
            old(self).roots().len() != 0 ==> final(self).roots() == old(self).roots(),
    {
        if self.source_roots.len() == 0 {
            let fallback = join_path(&chars_of(manifest_dir), &chars_of("src"));
            let path = fallback;
            let comps = components_of(&path);
            let key = RootKey { rooted: path.len() > 0 && path[0] == '/', comps };
            proof {
                reveal_strlit("src");
                assert("src"@ =~= src_dir());
            }
            let mut roots: Vec<RootKey> = Vec::new();
            roots.push(key);
            proof {
                assert(keys_view(roots@) =~= seq![key_view(key)]);
            }
            self.source_roots = roots;
        }
    }

    /// The collected roots in the order of `Path`, without any root that lies
    /// inside another: the walk below the outer root already reaches it.
    pub fn into_roots(self) -> (r: Vec<String>)
        ensures
            r@.map_values(|s: String| s@) == outermost(self.roots(), self.roots()).map_values(
                |k: (bool, Seq<Seq<char>>)| render_key(k),
            ),
            sorted_keys(outermost(self.roots(), self.roots())),
    {
        proof {
            use_type_invariant(&self);
            lemma_outermost_sorted(self.roots(), self.roots());
        }
        let ghost all = self.roots();
        let mut r: Vec<String> = Vec::new();
        let mut i: usize = 0;
        while i < self.source_roots.len()
            invariant
                i <= self.source_roots.len(),
                all == self.roots(),
                r@.map_values(|s: String| s@) == outermost(all.take(i as int), all).map_values(
                    |k: (bool, Seq<Seq<char>>)| render_key(k),
                ),
            decreases self.source_roots.len() - i,
        {
            let ghost before = r@.map_values(|s: String| s@);
            proof {
                assert(all.take(i + 1).drop_last() =~= all.take(i as int));
                assert(all.take(i + 1).last() == all[i as int]);
            }
            if !self.has_ancestor(i) {
                let key = &self.source_roots[i];
                let mut text: Vec<char> = Vec::new();
                if key.rooted {
                    text.push('/');
                }
                let joined = join_chars(&key.comps, '/');
                crate::text::push_all(&mut text, joined.as_slice());
                proof {
                    assert(all[i as int] == key_view(*key));
                    assert(text@ =~= render_key(all[i as int]));
                }
                let s = string_of(text.as_slice());
                r.push(s);
                proof {
                    let target = outermost(all.take(i + 1), all).map_values(
                        |k: (bool, Seq<Seq<char>>)| render_key(k),
                    );
                    assert(r@.map_values(|s: String| s@) =~= before.push(text@));
                    assert(target =~= outermost(all.take(i as int), all).map_values(
                        |k: (bool, Seq<Seq<char>>)| render_key(k),
                    ).push(render_key(all[i as int])));
                }
            }
            i = i + 1;
        }
        proof {
            assert(all.take(i as int) =~= all);
        }
        r
    }

    /// Whether some other collected root is a proper ancestor of root `i`.
    fn has_ancestor(&self, i: usize) -> (r: bool)
        requires
            i < self.roots().len(),
        ensures
            r == exists|j: int|
                0 <= j < self.roots().len() && is_proper_ancestor(self.roots()[j], self.roots()[i as int]),
    {
        let inner = &self.source_roots[i];
        let mut j: usize = 0;
        while j < self.source_roots.len()
            invariant
                j <= self.source_roots.len(),
                i < self.source_roots.len(),
                inner == self.source_roots@[i as int],
                forall|k: int|
                    0 <= k < j ==> !is_proper_ancestor(
                        #[trigger] self.roots()[k],
                        self.roots()[i as int],
                    ),
            decreases self.source_roots.len() - j,
        {
            let outer = &self.source_roots[j];
            if outer.rooted == inner.rooted && outer.comps.len() < inner.comps.len() {
                let mut p: usize = 0;
                let mut same = true;
                while p < outer.comps.len()
                    invariant
                        p <= outer.comps.len(),
                        outer.comps.len() < inner.comps.len(),
                        same ==> forall|q: int|
                            0 <= q < p ==> views(outer.comps@)[q] == views(inner.comps@)[q],
                        !same ==> !views(outer.comps@).is_prefix_of(views(inner.comps@)),
                    decreases outer.comps.len() - p,
                {
                    if same && !chars_equal(outer.comps[p].as_slice(), inner.comps[p].as_slice()) {
                        same = false;
                        assert(views(outer.comps@)[p as int] != views(inner.comps@)[p as int]);
                    }
                    p = p + 1;
                }
                if same {
                    assert(self.roots()[j as int] == key_view(*outer));
                    assert(self.roots()[i as int] == key_view(*inner));
                    assert(is_proper_ancestor(self.roots()[j as int], self.roots()[i as int]));
                    return true;
                }
            }
            assert(self.roots()[j as int] == key_view(*outer));
            assert(self.roots()[i as int] == key_view(*inner));
            j = j + 1;
        }
        false
    }

    /// Inserts `key` at its place in the order, unless an equal root is
    /// already there.
    #[verifier::spinoff_prover]
    fn insert_sorted(roots: Vec<RootKey>, key: RootKey) -> (r: Vec<RootKey>)
        requires
            sorted_keys(keys_view(roots@)),
        ensures
            sorted_keys(keys_view(r@)),
            forall|k: (bool, Seq<Seq<char>>)|
                keys_view(r@).contains(k) <==> (keys_view(roots@).contains(k) || k == key_view(key)),
    {
        let mut roots = roots;
        let ghost start = keys_view(roots@);
        let ghost kv = key_view(key);
        let mut p: usize = 0;
        while p < roots.len() && Self::key_before(&roots[p], &key)
            invariant
                p <= roots.len(),
                kv == key_view(key),
                sorted_keys(keys_view(roots@)),
                forall|q: int| 0 <= q < p ==> key_less(#[trigger] keys_view(roots@)[q], kv),
            decreases roots.len() - p,
        {
            assert(keys_view(roots@)[p as int] == key_view(roots@[p as int]));
            p = p + 1;
        }
        if p < roots.len() {
            let here = &roots[p];
            if here.rooted == key.rooted && Self::same_components(&here.comps, &key.comps) {
                proof {
                    assert(keys_view(roots@)[p as int] == key_view(*here));
                    assert(keys_view(roots@)[p as int] == kv);
                    assert forall|k: (bool, Seq<Seq<char>>)|
                        keys_view(roots@).contains(k) <==> (keys_view(roots@).contains(k) || k == kv) by {
                        if k == kv {
                            assert(keys_view(roots@)[p as int] == k);
                        }
                    }
                }
                return roots;
            }
        }
        proof {
            let rs = keys_view(roots@);
            if p < rs.len() {
                assert(rs[p as int] == key_view(roots@[p as int]));
                assert(!key_less(rs[p as int], kv));
                assert(rs[p as int] != kv);
                lemma_components_total(rs[p as int].1, kv.1);
            }
            assert forall|q: int| p <= q < rs.len() implies key_less(kv, #[trigger] rs[q]) by {
                if q > p {
                    assert(key_less(rs[p as int], rs[q]));
                    if kv.0 == rs[p as int].0 && rs[p as int].0 == rs[q].0 {
                        lemma_components_transitive(kv.1, rs[p as int].1, rs[q].1);
                    }
                }
            }
        }
        let ghost old_keys = roots@;
        roots.insert(p, key);
        proof {
            let rs = keys_view(old_keys);
            assert(keys_view(roots@) =~= rs.insert(p as int, kv));
            assert forall|a: int, b: int|
                0 <= a < b < roots@.len() implies key_less(
                #[trigger] keys_view(roots@)[a],
                #[trigger] keys_view(roots@)[b],
            ) by {
                if b < p {
                } else if a < p && b == p {
                } else if a < p {
                    assert(keys_view(roots@)[b] == rs[b - 1]);
                } else if a == p {
                    assert(keys_view(roots@)[b] == rs[b - 1]);
                } else {
                    assert(keys_view(roots@)[a] == rs[a - 1]);
                    assert(keys_view(roots@)[b] == rs[b - 1]);
                }
            }
        }
        proof {
            let rs = keys_view(old_keys);
            assert(keys_view(roots@) =~= rs.insert(p as int, kv));
            assert forall|k: (bool, Seq<Seq<char>>)|
                keys_view(roots@).contains(k) <==> (rs.contains(k) || k == kv) by {
                if rs.contains(k) {
                    let q = choose|q: int| 0 <= q < rs.len() && rs[q] == k;
                    if q < p {
                        assert(keys_view(roots@)[q] == k);
                    } else {
                        assert(keys_view(roots@)[q + 1] == k);
                    }
                }
                if k == kv {
                    assert(keys_view(roots@)[p as int] == k);
                }
                if keys_view(roots@).contains(k) {
                    let q = choose|q: int| 0 <= q < keys_view(roots@).len() && keys_view(roots@)[q] == k;
                    if q < p {
                        assert(rs[q] == k);
                    } else if q > p {
                        assert(rs[q - 1] == k);
                    }
                }
            }
            assert(rs == start);
        }
        roots
    }

    fn key_before(a: &RootKey, b: &RootKey) -> (r: bool)
        ensures
            r == key_less(key_view(*a), key_view(*b)),
    {
        (a.rooted && !b.rooted) || (a.rooted == b.rooted && components_before(&a.comps, &b.comps))
    }

    fn same_components(a: &Vec<Vec<char>>, b: &Vec<Vec<char>>) -> (r: bool)
        ensures
            r == (views(a@) == views(b@)),
    {
        assert(views(a@).len() == a@.len() && views(b@).len() == b@.len());
        if a.len() != b.len() {
            return false;
        }
        let mut i: usize = 0;
        while i < a.len()
            invariant
                i <= a.len(),
                a.len() == b.len(),
                forall|k: int| 0 <= k < i ==> views(a@)[k] == views(b@)[k],
            decreases a.len() - i,
        {
            if !chars_equal(a[i].as_slice(), b[i].as_slice()) {
                assert(views(a@)[i as int] != views(b@)[i as int]);
                return false;
            }
            i = i + 1;
        }
        assert(views(a@) =~= views(b@));
        true
    }

    /// Whether the target is built for production.
    pub fn is_production_target(target: &Target) -> (r: bool)
        ensures
            r == is_production(*target),
    {
        let mut i: usize = 0;
        while i < target.kind.len()
            invariant
                i <= target.kind.len(),
                forall|k: int| 0 <= k < i ==> !is_excluded_kind(#[trigger] target.kind@[k]@),
            decreases target.kind.len() - i,
        {
            let kind = &target.kind[i];
            proof {
                reveal_strlit("test");
                reveal_strlit("bench");
                reveal_strlit("example");
                reveal_strlit("custom-build");
                assert("test"@ =~= seq!['t', 'e', 's', 't']);
                assert("bench"@ =~= seq!['b', 'e', 'n', 'c', 'h']);
                assert("example"@ =~= seq!['e', 'x', 'a', 'm', 'p', 'l', 'e']);
                assert("custom-build"@ =~= seq!['c', 'u', 's', 't', 'o', 'm', '-', 'b', 'u', 'i', 'l', 'd']);
            }
            if string_is(kind, "test") || string_is(kind, "bench") || string_is(kind, "example")
                || string_is(kind, "custom-build") {
                assert(is_excluded_kind(target.kind@[i as int]@));
                return false;
            }
            i = i + 1;
        }
        let mut j: usize = 0;
        while j < target.kind.len()
            invariant
                j <= target.kind.len(),
                forall|k: int| 0 <= k < target.kind@.len() ==> !is_excluded_kind(#[trigger] target.kind@[k]@),
                forall|k: int| 0 <= k < j ==> !is_production_kind(#[trigger] target.kind@[k]@),
            decreases target.kind.len() - j,
        {
            let kind = &target.kind[j];
            proof {
                reveal_strlit("lib");
                reveal_strlit("bin");
                reveal_strlit("proc-macro");
                reveal_strlit("rlib");
                reveal_strlit("dylib");
                reveal_strlit("cdylib");
                reveal_strlit("staticlib");
                assert("lib"@ =~= seq!['l', 'i', 'b']);
                assert("bin"@ =~= seq!['b', 'i', 'n']);
                assert("proc-macro"@ =~= seq!['p', 'r', 'o', 'c', '-', 'm', 'a', 'c', 'r', 'o']);
                assert("rlib"@ =~= seq!['r', 'l', 'i', 'b']);
                assert("dylib"@ =~= seq!['d', 'y', 'l', 'i', 'b']);
                assert("cdylib"@ =~= seq!['c', 'd', 'y', 'l', 'i', 'b']);
                assert("staticlib"@ =~= seq!['s', 't', 'a', 't', 'i', 'c', 'l', 'i', 'b']);
            }
            if string_is(kind, "lib") || string_is(kind, "bin") || string_is(kind, "proc-macro")
                || string_is(kind, "rlib") || string_is(kind, "dylib") || string_is(kind, "cdylib")
                || string_is(kind, "staticlib") {
                assert(is_production_kind(target.kind@[j as int]@));
                return true;
            }
            j = j + 1;
        }
        false
    }
}

} // verus!
