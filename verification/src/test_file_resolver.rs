//! The mirror rule: `src/<path>/<name>.rs` is expected to have its test at
//! `tests/<path>/<name>_tests.rs`.
use vstd::prelude::*;
use crate::path::{
    is_plain_component, lemma_components_concat, lemma_components_join, lemma_join_plain,
    components, is_rooted, path_join, strip_prefix_spec, file_stem, src_dir, tests_dir, parent_dir,
    join_path, strip_prefix, file_stem_of,
};
use crate::text::{views, join_spec, chars_of, string_of, chars_are, push_str, join_chars};

verus! {

/// Whether a file name is one the mirror rule never asks a test for.
pub open spec fn is_unmirrored_name(name: Seq<char>) -> bool {
    name == seq!['l', 'i', 'b', '.', 'r', 's'] || name == seq!['m', 'a', 'i', 'n', '.', 'r', 's']
        || name == seq!['m', 'o', 'd', '.', 'r', 's']
}

/// The file name of the test that mirrors a source file named `name`.
pub open spec fn test_file_name(name: Seq<char>) -> Seq<char> {
    file_stem(name) + seq!['_', 't', 'e', 's', 't', 's', '.', 'r', 's']
}

/// Where the test mirroring `rel` (the components of a source file below
/// `src/`) lives, under the tests directory `tests_root`.
pub open spec fn mirrored_path(tests_root: Seq<char>, rel: Seq<Seq<char>>) -> Seq<char> {
    let dirs = rel.drop_last();
    if dirs.len() == 0 {
        path_join(tests_root, test_file_name(rel.last()))
    } else {
        path_join(path_join(tests_root, join_spec(dirs, '/')), test_file_name(rel.last()))
    }
}

/// The test file the mirror rule expects for `source` in the package whose
/// manifest lives in `manifest_dir`; `None` when the rule expects none: the
/// source is not below `src/`, or it is `lib.rs`, `main.rs` or a `mod.rs`.
pub open spec fn expected_test_spec(manifest_dir: Seq<char>, source: Seq<char>) -> Option<
    Seq<char>,
> {
    match strip_prefix_spec(source, path_join(manifest_dir, src_dir())) {
        None => None,
        Some(rel) => if rel.len() == 0 || rel.last() == parent_dir() || is_unmirrored_name(
            rel.last(),
        ) {
            None
        } else {
            Some(mirrored_path(path_join(manifest_dir, tests_dir()), rel))
        },
    }
}

/// The mirror rule: below a package's `src/`, a file `name` in the
/// directories `dirs` is expected to have its test at
/// `tests/<dirs>/<stem of name>_tests.rs`.
pub proof fn mirror_rule(manifest_dir: Seq<char>, dirs: Seq<Seq<char>>, name: Seq<char>)
    requires
        forall|i: int| 0 <= i < dirs.len() ==> is_plain_component(#[trigger] dirs[i]),
        is_plain_component(name),
        name != parent_dir(),
        !is_unmirrored_name(name),
    ensures
        ({
            let source = path_join(path_join(manifest_dir, src_dir()), join_spec(dirs.push(name), '/'));
            let tests_root = path_join(manifest_dir, tests_dir());
            expected_test_spec(manifest_dir, source) == Some(
                if dirs.len() == 0 {
                    path_join(tests_root, test_file_name(name))
                } else {
                    path_join(path_join(tests_root, join_spec(dirs, '/')), test_file_name(name))
                },
            )
        }),
{
    let m = manifest_dir;
    let all = dirs.push(name);
    assert forall|i: int| 0 <= i < all.len() implies is_plain_component(#[trigger] all[i]) by {
        if i < dirs.len() {
            assert(all[i] == dirs[i]);
        }
    }
    lemma_join_plain(all);
    let rel = join_spec(all, '/');
    let src_root = path_join(m, src_dir());
    assert(src_root.len() > 0 && src_root.last() == 'c');
    let source = path_join(src_root, rel);
    assert(source =~= src_root + seq!['/'] + rel);
    assert(is_rooted(source) == is_rooted(src_root)) by {
        assert(source[0] == src_root[0]);
    }
    lemma_components_join(all);
    lemma_components_concat(src_root, rel);
    let b = components(src_root);
    assert(components(source) == b + all);
    assert(b.is_prefix_of(b + all));
    assert((b + all).skip(b.len() as int) =~= all);
    assert(strip_prefix_spec(source, src_root) == Some(all));
    assert(all.last() == name);
    assert(all.drop_last() =~= dirs);
}

/// The rule is rooted at `src/`: a file that does not lie below the
/// package's `src/` directory is expected to have no test at all.
pub proof fn files_outside_src_expect_no_test(manifest_dir: Seq<char>, source: Seq<char>)
    requires
        !components(path_join(manifest_dir, src_dir())).is_prefix_of(components(source)),
    ensures
        expected_test_spec(manifest_dir, source) is None,
{
}

/// `lib.rs`, `main.rs` and `mod.rs` are never asked for a test, wherever
/// they lie.
pub proof fn unmirrored_names_expect_no_test(manifest_dir: Seq<char>, source: Seq<char>)
    requires
        components(source).len() > 0,
        is_unmirrored_name(components(source).last()),
    ensures
        expected_test_spec(manifest_dir, source) is None,
{
    let p = components(source);
    match strip_prefix_spec(source, path_join(manifest_dir, src_dir())) {
        Some(rel) => {
            if rel.len() > 0 {
                assert(rel.last() == p.last());
            }
        },
        None => {},
    }
}

#[derive(Default)]
pub struct TestFileResolver;

impl TestFileResolver {
    pub fn new() -> Self {
        TestFileResolver
    }

    /// The test file mirroring `source_file`, if the mirror rule expects one.
    pub fn expected_test_file(&self, manifest_dir: &str, source_file: &str) -> (r: Option<String>)
        ensures
            match r {
                Some(t) => expected_test_spec(manifest_dir@, source_file@) == Some(t@),
                None => expected_test_spec(manifest_dir@, source_file@) is None,
            },
    {
        let m = chars_of(manifest_dir);
        let source = chars_of(source_file);
        let src_root = join_path(&m, &chars_of("src"));
        let tests_root = join_path(&m, &chars_of("tests"));
        proof {
            reveal_strlit("src");
            reveal_strlit("tests");
            assert("src"@ =~= src_dir());
            assert("tests"@ =~= tests_dir());
        }
        let rel = match strip_prefix(&source, &src_root) {
            Some(rel) => rel,
            None => return None,
        };
        if rel.len() == 0 {
            return None;
        }
        let name = &rel[rel.len() - 1];
        proof {
            reveal_strlit("..");
            reveal_strlit("lib.rs");
            reveal_strlit("main.rs");
            reveal_strlit("mod.rs");
            assert(views(rel@).last() == name@);
            assert(".."@ =~= parent_dir());
            assert("lib.rs"@ =~= seq!['l', 'i', 'b', '.', 'r', 's']);
            assert("main.rs"@ =~= seq!['m', 'a', 'i', 'n', '.', 'r', 's']);
            assert("mod.rs"@ =~= seq!['m', 'o', 'd', '.', 'r', 's']);
        }
        if chars_are(name.as_slice(), "..") || chars_are(name.as_slice(), "lib.rs") || chars_are(
            name.as_slice(),
            "main.rs",
        ) || chars_are(name.as_slice(), "mod.rs") {
            return None;
        }
        let mut test_name = file_stem_of(name);
        push_str(&mut test_name, "_tests.rs");
        proof {
            reveal_strlit("_tests.rs");
            assert(test_name@ =~= test_file_name(name@));
        }
        let mut dirs: Vec<Vec<char>> = Vec::new();
        let mut i: usize = 0;
        while i + 1 < rel.len()
            invariant
                i < rel.len(),
                views(dirs@) == views(rel@).take(i as int),
            decreases rel.len() - i,
        {
            let d = rel[i].clone();
            let ghost before = views(dirs@);
            let ghost dv = d@;
            dirs.push(d);
            assert(views(dirs@) =~= before.push(dv));
            assert(views(dirs@) =~= views(rel@).take(i + 1));
            i = i + 1;
        }
        assert(views(dirs@) =~= views(rel@).drop_last());
        let target = if dirs.len() == 0 {
            join_path(&tests_root, &test_name)
        } else {
            let dir_text = join_chars(&dirs, '/');
            join_path(&join_path(&tests_root, &dir_text), &test_name)
        };
        Some(string_of(target.as_slice()))
    }
}

} // verus!
