//! From a workspace's metadata to the packages to analyze.
use vstd::prelude::*;
use crate::config::Config;
use crate::package_context::PackageContext;
use crate::path::{
    lemma_normalize_idempotent, normalize, strip_prefix_spec, path_join, src_dir, normalize_chars, strip_prefix, join_path,
    components_of,
};
use crate::target_root_collector::{
    Target, TargetRootCollector, path_key, parent_key, render_key, outermost, is_production,
    is_proper_ancestor, sorted_keys, lemma_outermost_contains, key_less,
};
use crate::order::{lemma_components_irreflexive, lemma_components_transitive};
use crate::text::{views, join_spec, chars_of, string_of, join_chars, push_all, push_str, texts};

verus! {

/// A package of the workspace: its name, the path of its manifest, and its
/// build targets.
#[derive(Debug, Clone, PartialEq, Eq)]
pub struct Package {
    pub name: String,
    pub manifest_path: String,
    pub targets: Vec<Target>,
}

/// The workspace's metadata: its packages, and which of them is the root
/// package when the manifest is a package's own rather than a virtual one.
#[derive(Debug, Clone, PartialEq, Eq)]
pub struct Metadata {
    pub packages: Vec<Package>,
    pub root_package: Option<usize>,
}

/// `file` relative to `base`: the components of `file` after those of
/// `base`, joined with `/`, when `base` is a prefix of it; otherwise `file`
/// itself. Either way `\` reads as `/`.
pub open spec fn relative_file_spec(base: Seq<char>, file: Seq<char>) -> Seq<char> {
    match strip_prefix_spec(normalize(file), normalize(base)) {
        Some(rest) => join_spec(rest, '/'),
        None => normalize(file),
    }
}

/// A relative file does not depend on how the separators of either path are
/// written: `\` reads as `/`.
pub proof fn relative_file_ignores_separator_style(base: Seq<char>, file: Seq<char>)
    ensures
        relative_file_spec(base, file) == relative_file_spec(normalize(base), normalize(file)),
{
    lemma_normalize_idempotent(base);
    lemma_normalize_idempotent(file);
}

/// Whether `i` is the first package named `name`.
pub open spec fn is_first_named(packages: Seq<Package>, name: Seq<char>, i: int) -> bool {
    0 <= i < packages.len() && packages[i].name@ == name && forall|j: int|
        0 <= j < i ==> (#[trigger] packages[j]).name@ != name
}

/// Whether `chosen` is the first package named `name`.
pub open spec fn selects(packages: Seq<Package>, name: Seq<char>, chosen: Package) -> bool {
    exists|p: int| is_first_named(packages, name, p) && chosen == packages[p]
}

pub open spec fn is_named_in(packages: Seq<Package>, name: Seq<char>) -> bool {
    exists|i: int| 0 <= i < packages.len() && (#[trigger] packages[i]).name@ == name
}

pub open spec fn not_found_message(name: Seq<char>) -> Seq<char> {
    seq!['p', 'a', 'c', 'k', 'a', 'g', 'e', ' '] + name + seq![
        ' ',
        'w',
        'a',
        's',
        ' ',
        'n',
        'o',
        't',
        ' ',
        'f',
        'o',
        'u',
        'n',
        'd',
        ' ',
        'i',
        'n',
        ' ',
        't',
        'h',
        'e',
        ' ',
        'm',
        'a',
        'n',
        'i',
        'f',
        'e',
        's',
        't',
    ]
}

/// The text a package whose name ends in this is validation harness, whose
/// `src/` tree is not asked for mirrored tests.
pub open spec fn validation_suffix() -> Seq<char> {
    seq!['-', 'v', 'a', 'l', 'i', 'd', 'a', 't', 'i', 'o', 'n']
}

/// Whether `root` is the `src/` directory of a validation package.
pub open spec fn ignored_root(package_name: Seq<char>, manifest_dir: Seq<char>, root: Seq<char>) -> bool {
    validation_suffix().is_suffix_of(package_name) && path_key(root) == path_key(
        path_join(manifest_dir, src_dir()),
    )
}

/// The candidate roots of a package: the directories of its production
/// targets' entry files, or `<manifest_dir>/src` when there is none.
pub open spec fn candidate_root(
    targets: Seq<Target>,
    manifest_dir: Seq<char>,
    k: (bool, Seq<Seq<char>>),
) -> bool {
    if exists|i: int|
        0 <= i < targets.len() && is_production(#[trigger] targets[i]) && parent_key(
            targets[i].src_path@,
        ) is Some {
        exists|i: int|
            0 <= i < targets.len() && is_production(#[trigger] targets[i]) && parent_key(
                targets[i].src_path@,
            ) == Some(k)
    } else {
        k == path_key(path_join(manifest_dir, src_dir()))
    }
}

/// Whether `k` is a candidate root of the package that no other candidate
/// root lies above: the walk below that one already reaches it.
pub open spec fn outermost_candidate(
    targets: Seq<Target>,
    manifest_dir: Seq<char>,
    k: (bool, Seq<Seq<char>>),
) -> bool {
    candidate_root(targets, manifest_dir, k) && !exists|above: (bool, Seq<Seq<char>>)|
        candidate_root(targets, manifest_dir, above) && is_proper_ancestor(above, k)
}

/// The roots of `roots` that a validation package does not leave out, in
/// order.
pub open spec fn kept_roots(package_name: Seq<char>, manifest_dir: Seq<char>, roots: Seq<Seq<char>>) -> Seq<
    Seq<char>,
>
    decreases roots.len(),
{
    if roots.len() == 0 {
        Seq::empty()
    } else if ignored_root(package_name, manifest_dir, roots.last()) {
        kept_roots(package_name, manifest_dir, roots.drop_last())
    } else {
        kept_roots(package_name, manifest_dir, roots.drop_last()).push(roots.last())
    }
}

/// Whether `roots` are the source roots of a package named `package_name`
/// whose manifest lives in `manifest_dir` and which has the build targets
/// `targets`: its outermost candidate roots in the order of `Path`, written
/// out, without those a validation package leaves out.
pub open spec fn source_roots_of(
    package_name: Seq<char>,
    manifest_dir: Seq<char>,
    targets: Seq<Target>,
    roots: Seq<Seq<char>>,
) -> bool {
    exists|keys: Seq<(bool, Seq<Seq<char>>)>|
        #![trigger sorted_keys(keys)]
        sorted_keys(keys) && (forall|k: (bool, Seq<Seq<char>>)|
            #[trigger] keys.contains(k) <==> outermost_candidate(targets, manifest_dir, k))
            && roots == kept_roots(
            package_name,
            manifest_dir,
            keys.map_values(|k: (bool, Seq<Seq<char>>)| render_key(k)),
        )
}

/// Whether `ps` are the packages selected for `requested`: those named, in
/// the order named, each the first package of that name; with none named,
/// the root package.
pub open spec fn selected(metadata: Metadata, requested: Seq<String>, ps: Seq<Package>) -> bool {
    if requested.len() > 0 {
        ps.len() == requested.len() && forall|i: int|
            0 <= i < requested.len() ==> selects(metadata.packages@, requested[i]@, #[trigger] ps[i])
    } else {
        match metadata.root_package {
            Some(root) => root < metadata.packages@.len() && ps == seq![metadata.packages@[root as int]],
            None => false,
        }
    }
}

/// Whether `e` is the error of selecting packages for `requested`: the first
/// name that no package bears; with none named and no root package, the
/// request for a name.
pub open spec fn selection_failure(metadata: Metadata, requested: Seq<String>, e: Seq<char>) -> bool {
    if requested.len() > 0 {
        exists|i: int|
            0 <= i < requested.len() && !is_named_in(metadata.packages@, requested[i]@) && (forall|j: int|
                0 <= j < i ==> is_named_in(metadata.packages@, (#[trigger] requested[j])@)) && e
                == not_found_message(#[trigger] requested[i]@)
    } else {
        !(metadata.root_package matches Some(root) && root < metadata.packages@.len()) && e
            == "manifest contains multiple packages; pass --package <name>"@
    }
}

/// Whether `c` is the package `p` as the analysis sees it.
pub open spec fn context_of(p: Package, c: PackageContext) -> bool {
    let dir = render_key(parent_key(p.manifest_path@)->0);
    &&& parent_key(p.manifest_path@) is Some
    &&& c.name@ == p.name@
    &&& c.manifest_dir@ == dir
    &&& source_roots_of(p.name@, dir, p.targets@, texts(c.source_roots@))
}

/// The error for a package whose manifest path has no parent.
pub open spec fn no_parent_message() -> Seq<char> {
    "package manifest has no parent directory"@
}

/// `key_less` never holds both ways, nor of a key and itself.
proof fn lemma_key_less_strict(x: (bool, Seq<Seq<char>>), y: (bool, Seq<Seq<char>>))
    ensures
        !key_less(x, x),
        !(key_less(x, y) && key_less(y, x)),
{
    lemma_components_irreflexive(x.1);
    if key_less(x, y) && key_less(y, x) {
        lemma_components_transitive(x.1, y.1, x.1);
    }
}

/// Keys have one order only: two sorted sequences holding the same keys are
/// the same sequence.
proof fn lemma_sorted_keys_unique(a: Seq<(bool, Seq<Seq<char>>)>, b: Seq<(bool, Seq<Seq<char>>)>)
    requires
        sorted_keys(a),
        sorted_keys(b),
        forall|k: (bool, Seq<Seq<char>>)| a.contains(k) <==> b.contains(k),
    ensures
        a == b,
    decreases a.len(),
{
    if a.len() == 0 {
        if b.len() > 0 {
            assert(b.contains(b[0]));
        }
        assert(a =~= b);
    } else {
        assert(a.contains(a[0]));
        assert(b.contains(a[0]));
        assert(b.contains(b[0]));
        assert(a.contains(b[0]));
        let j = choose|j: int| 0 <= j < b.len() && b[j] == a[0];
        let i = choose|i: int| 0 <= i < a.len() && a[i] == b[0];
        lemma_key_less_strict(a[0], b[0]);
        if i > 0 && j > 0 {
            assert(key_less(a[0], a[i]));
            assert(key_less(b[0], b[j]));
        }
        assert(a[0] == b[0]);
        let ta = a.drop_first();
        let tb = b.drop_first();
        assert forall|x: int, y: int| 0 <= x < y < ta.len() implies key_less(
            #[trigger] ta[x],
            #[trigger] ta[y],
        ) by {
            assert(ta[x] == a[x + 1] && ta[y] == a[y + 1]);
        }
        assert forall|x: int, y: int| 0 <= x < y < tb.len() implies key_less(
            #[trigger] tb[x],
            #[trigger] tb[y],
        ) by {
            assert(tb[x] == b[x + 1] && tb[y] == b[y + 1]);
        }
        assert forall|k: (bool, Seq<Seq<char>>)| ta.contains(k) <==> tb.contains(k) by {
            if ta.contains(k) {
                let m = choose|m: int| 0 <= m < ta.len() && ta[m] == k;
                assert(a[m + 1] == k);
                assert(key_less(a[0], a[m + 1]));
                lemma_key_less_strict(a[0], k);
                assert(a.contains(k));
                let n = choose|n: int| 0 <= n < b.len() && b[n] == k;
                assert(n != 0);
                assert(tb[n - 1] == k);
            }
            if tb.contains(k) {
                let m = choose|m: int| 0 <= m < tb.len() && tb[m] == k;
                assert(b[m + 1] == k);
                assert(key_less(b[0], b[m + 1]));
                lemma_key_less_strict(b[0], k);
                assert(b.contains(k));
                let n = choose|n: int| 0 <= n < a.len() && a[n] == k;
                assert(n != 0);
                assert(ta[n - 1] == k);
            }
        }
        lemma_sorted_keys_unique(ta, tb);
        assert forall|x: int| 0 <= x < a.len() implies a[x] == b[x] by {
            if x > 0 {
                assert(a[x] == ta[x - 1] && b[x] == tb[x - 1]);
            }
        }
        assert(a =~= b);
    }
}

/// The source roots of a package are determined by its name, the directory
/// of its manifest and its targets: `source_roots_of` admits one list only,
/// so `build_package_context` gives exactly the collector's outermost roots,
/// in the order of `Path`, less those a validation package leaves out.
pub proof fn source_roots_are_determined(
    package_name: Seq<char>,
    manifest_dir: Seq<char>,
    targets: Seq<Target>,
    a: Seq<Seq<char>>,
    b: Seq<Seq<char>>,
)
    requires
        source_roots_of(package_name, manifest_dir, targets, a),
        source_roots_of(package_name, manifest_dir, targets, b),
    ensures
        a == b,
{
    let ka = choose|keys: Seq<(bool, Seq<Seq<char>>)>|
        #![trigger sorted_keys(keys)]
        sorted_keys(keys) && (forall|k: (bool, Seq<Seq<char>>)|
            #[trigger] keys.contains(k) <==> outermost_candidate(targets, manifest_dir, k)) && a
            == kept_roots(
            package_name,
            manifest_dir,
            keys.map_values(|k: (bool, Seq<Seq<char>>)| render_key(k)),
        );
    let kb = choose|keys: Seq<(bool, Seq<Seq<char>>)>|
        #![trigger sorted_keys(keys)]
        sorted_keys(keys) && (forall|k: (bool, Seq<Seq<char>>)|
            #[trigger] keys.contains(k) <==> outermost_candidate(targets, manifest_dir, k)) && b
            == kept_roots(
            package_name,
            manifest_dir,
            keys.map_values(|k: (bool, Seq<Seq<char>>)| render_key(k)),
        );
    assert forall|k: (bool, Seq<Seq<char>>)| ka.contains(k) <==> kb.contains(k) by {
        assert(ka.contains(k) <==> outermost_candidate(targets, manifest_dir, k));
        assert(kb.contains(k) <==> outermost_candidate(targets, manifest_dir, k));
    }
    lemma_sorted_keys_unique(ka, kb);
}

pub struct ManifestResolver {
    config: Config,
}

impl ManifestResolver {
    pub fn new(config: Config) -> (r: Self)
        ensures
            r.config() == config,
    {
        ManifestResolver { config }
    }

    pub closed spec fn config(&self) -> Config {
        self.config
    }

    /// The manifest path the invocation names, if any.
    pub fn manifest_path(&self) -> (r: &Option<String>)
        ensures
            *r == self.config().manifest_path,
    {
        &self.config.manifest_path
    }

    /// The packages the invocation names.
    pub fn requested_packages(&self) -> (r: &Vec<String>)
        ensures
            *r == self.config().packages,
    {
        &self.config.packages
    }

    /// The packages to analyze: those named, in the order named, each the
    /// first package of that name; with none named, the root package.
    pub fn select_packages<'a>(metadata: &'a Metadata, requested: &[String]) -> (r: Result<
        Vec<&'a Package>,
        String,
    >)
        ensures
            requested@.len() > 0 ==> (r is Ok <==> forall|i: int|
                0 <= i < requested@.len() ==> is_named_in(
                    metadata.packages@,
                    (#[trigger] requested@[i])@,
                )),
            requested@.len() > 0 ==> (r matches Ok(v) ==> v@.len() == requested@.len() && forall|
                i: int,
            |
                0 <= i < requested@.len() ==> selects(
                    metadata.packages@,
                    requested@[i]@,
                    *(#[trigger] v@[i]),
                )),
            requested@.len() > 0 ==> (r matches Err(e) ==> exists|i: int|
                0 <= i < requested@.len() && !is_named_in(metadata.packages@, requested@[i]@)
                    && (forall|j: int|
                    0 <= j < i ==> is_named_in(metadata.packages@, (#[trigger] requested@[j])@))
                    && e@ == not_found_message(#[trigger] requested@[i]@)),
            requested@.len() == 0 ==> match metadata.root_package {
                Some(root) if root < metadata.packages@.len() => r matches Ok(v) && v@.len() == 1
                    && *v@[0] == metadata.packages@[root as int],
                _ => r matches Err(e) && e@
                    == "manifest contains multiple packages; pass --package <name>"@,
            },
    {
        if requested.len() > 0 {
            let mut selected: Vec<&'a Package> = Vec::new();
            let mut i: usize = 0;
            while i < requested.len()
                invariant
                    i <= requested.len(),
                    selected@.len() == i,
                    forall|k: int|
                        0 <= k < i ==> is_named_in(metadata.packages@, (#[trigger] requested@[k])@),
                    forall|k: int|
                        0 <= k < i ==> selects(
                            metadata.packages@,
                            requested@[k]@,
                            *(#[trigger] selected@[k]),
                        ),
                decreases requested.len() - i,
            {
                let name = &requested[i];
                let mut p: usize = 0;
                while p < metadata.packages.len() && !(metadata.packages[p].name == *name)
                    invariant
                        p <= metadata.packages.len(),
                        forall|q: int| 0 <= q < p ==> (#[trigger] metadata.packages@[q]).name@ != name@,
                    decreases metadata.packages.len() - p,
                {
                    p = p + 1;
                }
                if p == metadata.packages.len() {
                    let mut message: Vec<char> = Vec::new();
                    push_str(&mut message, "package ");
                    push_str(&mut message, name.as_str());
                    push_str(&mut message, " was not found in the manifest");
                    proof {
                        reveal_strlit("package ");
                        reveal_strlit(" was not found in the manifest");
                        assert(message@ =~= not_found_message(name@));
                        assert(!is_named_in(metadata.packages@, requested@[i as int]@));
                    }
                    return Err(string_of(message.as_slice()));
                }
                proof {
                    assert(is_first_named(metadata.packages@, name@, p as int));
                }
                let ghost before = selected@;
                selected.push(&metadata.packages[p]);
                proof {
                    assert(selected@[i as int] == &metadata.packages@[p as int]);
                    assert(selects(metadata.packages@, requested@[i as int]@, *selected@[i as int]));
                    assert forall|k: int| 0 <= k < i implies selects(
                        metadata.packages@,
                        requested@[k]@,
                        *(#[trigger] selected@[k]),
                    ) by {
                        assert(selected@[k] == before[k]);
                    }
                }
                i = i + 1;
            }
            return Ok(selected);
        }
        match metadata.root_package {
            Some(root) => {
                if root < metadata.packages.len() {
                    let mut selected: Vec<&'a Package> = Vec::new();
                    selected.push(&metadata.packages[root]);
                    return Ok(selected);
                }
            },
            None => {},
        }
        Err(string_of(chars_of("manifest contains multiple packages; pass --package <name>").as_slice()))
    }

    /// The package as the analysis sees it: its name, the directory of its
    /// manifest, and its source roots with those a validation package keeps
    /// out of scope removed. An error when the manifest path has no parent.
    pub fn build_package_context(package: &Package) -> (r: Result<PackageContext, String>)
        ensures
            r is Ok <==> parent_key(package.manifest_path@) is Some,
            r matches Err(e) ==> e@ == "package manifest has no parent directory"@,
            r matches Ok(context) ==> {
                let dir = render_key(parent_key(package.manifest_path@)->0);
                &&& context.name@ == package.name@
                &&& context.manifest_dir@ == dir
                &&& source_roots_of(package.name@, dir, package.targets@, texts(context.source_roots@))
            },
    {
        let manifest = chars_of(package.manifest_path.as_str());
        let mut comps = components_of(&manifest);
        if comps.len() == 0 {
            return Err(
                string_of(chars_of("package manifest has no parent directory").as_slice()),
            );
        }
        let ghost full = views(comps@);
        comps.pop();
        let mut dir: Vec<char> = Vec::new();
        if manifest.len() > 0 && manifest[0] == '/' {
            dir.push('/');
        }
        let joined = join_chars(&comps, '/');
        push_all(&mut dir, joined.as_slice());
        proof {
            assert(views(comps@) =~= full.drop_last());
            assert(dir@ =~= render_key(parent_key(package.manifest_path@)->0));
        }
        let manifest_dir = string_of(dir.as_slice());
        let mut collector = TargetRootCollector::new();
        collector.collect_from_targets(package.targets.as_slice());
        let ghost collected = collector.roots();
        collector.ensure_fallback(manifest_dir.as_str());
        let ghost all = collector.roots();
        proof {
            let targets = package.targets@;
            let dir = manifest_dir@;
            assert forall|k: (bool, Seq<Seq<char>>)| #[trigger] all.contains(k) <==> candidate_root(
                targets,
                dir,
                k,
            ) by {
                if exists|i: int|
                    0 <= i < targets.len() && is_production(#[trigger] targets[i]) && parent_key(
                        targets[i].src_path@,
                    ) is Some {
                    let i = choose|i: int|
                        0 <= i < targets.len() && is_production(#[trigger] targets[i]) && parent_key(
                            targets[i].src_path@,
                        ) is Some;
                    let pk = parent_key(targets[i].src_path@)->0;
                    assert(collected.contains(pk));
                    assert(collected.len() != 0);
                } else if collected.len() != 0 {
                    assert(collected.contains(collected[0]));
                } else {
                    assert(all == seq![path_key(path_join(dir, src_dir()))]);
                    if k == path_key(path_join(dir, src_dir())) {
                        assert(all[0] == k);
                    }
                }
            }
            assert forall|k: (bool, Seq<Seq<char>>)|
                #[trigger] outermost(all, all).contains(k) <==> outermost_candidate(targets, dir, k) by {
                lemma_outermost_contains(all, all, k);
                if exists|j: int| 0 <= j < all.len() && is_proper_ancestor(all[j], k) {
                    let j = choose|j: int| 0 <= j < all.len() && is_proper_ancestor(all[j], k);
                    assert(all.contains(all[j]));
                    assert(candidate_root(targets, dir, all[j]));
                }
                if exists|above: (bool, Seq<Seq<char>>)|
                    candidate_root(targets, dir, above) && is_proper_ancestor(above, k) {
                    let above = choose|above: (bool, Seq<Seq<char>>)|
                        candidate_root(targets, dir, above) && is_proper_ancestor(above, k);
                    assert(all.contains(above));
                    let j = choose|j: int| 0 <= j < all.len() && all[j] == above;
                    assert(is_proper_ancestor(all[j], k));
                }
            }
        }
        let roots = collector.into_roots();
        let ghost keys = outermost(all, all);
        let ghost rendered = keys.map_values(|k: (bool, Seq<Seq<char>>)| render_key(k));
        assert(texts(roots@) == rendered);
        let mut source_roots: Vec<String> = Vec::new();
        let mut i: usize = 0;
        while i < roots.len()
            invariant
                i <= roots.len(),
                texts(roots@) == rendered,
                texts(source_roots@) == kept_roots(package.name@, manifest_dir@, rendered.take(i as int)),
            decreases roots.len() - i,
        {
            proof {
                assert(rendered.take(i + 1).drop_last() =~= rendered.take(i as int));
                assert(rendered.take(i + 1).last() == roots@[i as int]@);
            }
            let ghost before = texts(source_roots@);
            if !Self::should_ignore_source_root(
                package.name.as_str(),
                manifest_dir.as_str(),
                roots[i].as_str(),
            ) {
                let root = roots[i].clone();
                source_roots.push(root);
                proof {
                    assert(texts(source_roots@) =~= before.push(roots@[i as int]@));
                }
            }
            i = i + 1;
        }
        proof {
            assert(rendered.take(roots.len() as int) =~= rendered);
            assert(sorted_keys(keys));
            assert(source_roots_of(package.name@, manifest_dir@, package.targets@, texts(source_roots@)));
        }
        Ok(PackageContext { name: package.name.clone(), manifest_dir, source_roots })
    }

    /// Whether `source_root` is the `src/` directory of a validation package.
    pub fn should_ignore_source_root(
        package_name: &str,
        manifest_dir: &str,
        source_root: &str,
    ) -> (r: bool)
        ensures
            r == ignored_root(package_name@, manifest_dir@, source_root@),
    {
        let name = chars_of(package_name);
        let suffix = chars_of("-validation");
        proof {
            reveal_strlit("-validation");
            assert(suffix@ =~= validation_suffix());
        }
        if !crate::text::ends_with_chars(name.as_slice(), suffix.as_slice()) {
            return false;
        }
        let src_root = join_path(&chars_of(manifest_dir), &chars_of("src"));
        proof {
            reveal_strlit("src");
            assert("src"@ =~= src_dir());
        }
        crate::target_root_collector::same_path(source_root, string_of(src_root.as_slice()).as_str())
    }

    /// The packages to analyze, as the analysis sees them: those selected,
    /// each built into its context in turn; the selection's error, or the
    /// error of the first package whose manifest path has no parent.
    pub fn package_contexts(metadata: &Metadata, requested: &[String]) -> (r: Result<
        Vec<PackageContext>,
        String,
    >)
        ensures
            match r {
                Ok(cs) => exists|ps: Seq<Package>|
                    selected(*metadata, requested@, ps) && cs@.len() == ps.len() && forall|i: int|
                        0 <= i < ps.len() ==> context_of(#[trigger] ps[i], cs@[i]),
                Err(e) => selection_failure(*metadata, requested@, e@) || exists|ps: Seq<Package>, i: int|
                    selected(*metadata, requested@, ps) && 0 <= i < ps.len() && parent_key(
                        (#[trigger] ps[i]).manifest_path@,
                    ) is None && (forall|j: int|
                        0 <= j < i ==> parent_key((#[trigger] ps[j]).manifest_path@) is Some) && e@
                        == no_parent_message(),
            },
    {
        let packages = match Self::select_packages(metadata, requested) {
            Ok(packages) => packages,
            Err(e) => {
                proof {
                    if requested@.len() > 0 {
                        let i = choose|i: int|
                            0 <= i < requested@.len() && !is_named_in(metadata.packages@, requested@[i]@)
                                && (forall|j: int|
                                0 <= j < i ==> is_named_in(
                                    metadata.packages@,
                                    (#[trigger] requested@[j])@,
                                )) && e@ == not_found_message(#[trigger] requested@[i]@);
                        assert(selection_failure(*metadata, requested@, e@));
                    }
                }
                return Err(e);
            },
        };
        let ghost ps = packages@.map_values(|p: &Package| *p);
        proof {
            if requested@.len() > 0 {
                assert forall|i: int| 0 <= i < requested@.len() implies selects(
                    metadata.packages@,
                    requested@[i]@,
                    #[trigger] ps[i],
                ) by {
                    assert(ps[i] == *packages@[i]);
                }
            } else {
                assert(ps =~= seq![metadata.packages@[metadata.root_package->0 as int]]);
            }
            assert(selected(*metadata, requested@, ps));
        }
        let mut contexts: Vec<PackageContext> = Vec::new();
        let mut i: usize = 0;
        while i < packages.len()
            invariant
                i <= packages.len(),
                ps == packages@.map_values(|p: &Package| *p),
                selected(*metadata, requested@, ps),
                contexts@.len() == i,
                forall|k: int| 0 <= k < i ==> context_of(#[trigger] ps[k], contexts@[k]),
            decreases packages.len() - i,
        {
            assert(ps[i as int] == *packages@[i as int]);
            match Self::build_package_context(packages[i]) {
                Ok(c) => contexts.push(c),
                Err(e) => {
                    proof {
                        reveal_strlit("package manifest has no parent directory");
                        assert forall|j: int| 0 <= j < i implies parent_key(
                            (#[trigger] ps[j]).manifest_path@,
                        ) is Some by {
                            assert(context_of(ps[j], contexts@[j]));
                        }
                        assert(parent_key(ps[i as int].manifest_path@) is None);
                    }
                    return Err(e);
                },
            }
            i = i + 1;
        }
        Ok(contexts)
    }

    /// `file_path` relative to `base_dir`, with `/` as its only separator.
    pub fn relative_file(base_dir: &str, file_path: &str) -> (r: String)
        ensures
            r@ == relative_file_spec(base_dir@, file_path@),
    {
        let base = normalize_chars(chars_of(base_dir).as_slice());
        let file = normalize_chars(chars_of(file_path).as_slice());
        match strip_prefix(&file, &base) {
            Some(rest) => string_of(join_chars(&rest, '/').as_slice()),
            None => string_of(file.as_slice()),
        }
    }
}

} // verus!
