//! Whether a source file holds only definitions, which earn no mirrored test.
use vstd::prelude::*;
use crate::failure::{Failure, FailureView};
use crate::behaviourless_impl_detector::{BehaviourlessImplDetector, is_behaviourless};
use crate::humble_adapter_detector::{HumbleAdapterDetector, is_humble_adapter, is_adapter_item};
use crate::syntax::{
    AttrShape, ItemShape, ItemKind, has_test_attr, attrs_mention_test, rust_items, parse_items,
    declared_type_name,
};
use crate::trivial_constructor_detector::{
    TrivialConstructorDetector, has_trivial_constructor, is_inert_item, is_sole_type_with_constructor,
    is_trivial_constructor_item,
};

verus! {

/// The items that are not gated to test builds, in order.
pub open spec fn non_test_items(items: Seq<ItemShape>) -> Seq<ItemShape>
    decreases items.len(),
{
    if items.len() == 0 {
        Seq::empty()
    } else if has_test_attr(items.last().attrs@) {
        non_test_items(items.drop_last())
    } else {
        non_test_items(items.drop_last()).push(items.last())
    }
}

/// Whether the item is an import or a `mod` declaration without a body.
pub open spec fn is_import_item(item: ItemShape) -> bool {
    match item.kind {
        ItemKind::Use | ItemKind::ExternCrate => true,
        ItemKind::Mod { inline } => !inline,
        _ => false,
    }
}

/// Whether the item introduces no behaviour: an import, a `mod`
/// declaration, a constant, static, struct, enum, type alias or trait, or a
/// behaviourless trait impl. A macro invocation is none of these: its
/// expansion is never seen.
pub open spec fn is_definition_item(item: ItemShape) -> bool {
    match item.kind {
        ItemKind::Use | ItemKind::ExternCrate | ItemKind::Const | ItemKind::Static
        | ItemKind::Struct(_) | ItemKind::Enum(_) | ItemKind::TypeAlias | ItemKind::Trait => true,
        ItemKind::Mod { inline } => !inline,
        _ => is_behaviourless(item),
    }
}

/// Whether the item declares something inert: a type, trait, constant or
/// static.
pub open spec fn is_declaring_item(item: ItemShape) -> bool {
    match item.kind {
        ItemKind::Struct(_) | ItemKind::Enum(_) | ItemKind::TypeAlias | ItemKind::Trait
        | ItemKind::Const | ItemKind::Static => true,
        _ => false,
    }
}

/// Whether the (non-test) items make a definition-only file: there is at
/// least one item, and either every item is a definition and one of them
/// declares something, or the file is a single type with a trivial
/// constructor, or a humble adapter.
pub open spec fn definition_only_items(items: Seq<ItemShape>) -> bool {
    &&& items.len() > 0
    &&& if forall|i: int| 0 <= i < items.len() ==> is_definition_item(#[trigger] items[i]) {
        exists|i: int| 0 <= i < items.len() && is_declaring_item(#[trigger] items[i])
    } else {
        has_trivial_constructor(items) || is_humble_adapter(items)
    }
}

/// Whether a file with these top-level items is definition-only, items gated
/// to test builds left aside.
pub open spec fn definition_only_file(items: Seq<ItemShape>) -> bool {
    definition_only_items(non_test_items(items))
}

/// Whether a file with these top-level items holds nothing but imports and
/// `mod` declarations, items gated to test builds left aside.
pub open spec fn import_only_file(items: Seq<ItemShape>) -> bool {
    forall|i: int|
        0 <= i < non_test_items(items).len() ==> is_import_item(#[trigger] non_test_items(items)[i])
}

/// The message of the error for a source that does not parse as Rust.
pub open spec fn parse_failure_message() -> Seq<char> {
    "failed to parse Rust source"@
}

/// The error for a source that does not parse as Rust: the fixed message,
/// caused by the parser's own error.
pub open spec fn parse_failure_view(source: Seq<char>) -> FailureView {
    FailureView { message: parse_failure_message(), cause: Some(rust_items(source)->Err_0) }
}

#[derive(Default)]
pub struct DefinitionAnalyzer {
    behaviourless_impl_detector: BehaviourlessImplDetector,
}

impl DefinitionAnalyzer {
    pub fn new() -> Self {
        DefinitionAnalyzer { behaviourless_impl_detector: BehaviourlessImplDetector::new() }
    }

    /// Whether `source` is a definition-only file; an error, caused by the
    /// parser's, when it does not parse as Rust.
    pub fn is_definition_only_source(&self, source: &str) -> (r: Result<bool, Failure>)
        ensures
            r is Ok <==> rust_items(source@) is Ok,
            r matches Err(e) ==> e@ == parse_failure_view(source@),
            r matches Ok(b) ==> b == definition_only_file(rust_items(source@)->Ok_0),
    {
        let items = match parse_items(source) {
            Ok(items) => items,
            Err(cause) => return Err(Self::parse_failure(cause)),
        };
        Ok(self.items_are_definition_only(items))
    }

    /// Whether a file with the top-level `items` is definition-only, items
    /// gated to test builds left aside.
    pub fn items_are_definition_only(&self, items: Vec<ItemShape>) -> (r: bool)
        ensures
            r == definition_only_file(items@),
    {
        let items = self.top_level_non_test_items(items);
        self.file_is_definition_only(&items)
    }

    /// Whether `source` holds nothing but imports and `mod` declarations; an
    /// error, caused by the parser's, when it does not parse as Rust.
    pub fn mod_file_is_import_only(&self, source: &str) -> (r: Result<bool, Failure>)
        ensures
            r is Ok <==> rust_items(source@) is Ok,
            r matches Err(e) ==> e@ == parse_failure_view(source@),
            r matches Ok(b) ==> b == import_only_file(rust_items(source@)->Ok_0),
    {
        let items = match parse_items(source) {
            Ok(items) => items,
            Err(cause) => return Err(Self::parse_failure(cause)),
        };
        Ok(self.items_are_import_only(items))
    }

    /// Whether a file with the top-level `items` holds nothing but imports
    /// and `mod` declarations, items gated to test builds left aside.
    pub fn items_are_import_only(&self, items: Vec<ItemShape>) -> (r: bool)
        ensures
            r == import_only_file(items@),
    {
        let ghost all = items@;
        let kept = self.top_level_non_test_items(items);
        let mut all_imports = true;
        let mut i: usize = 0;
        while i < kept.len() && all_imports
            invariant
                i <= kept.len(),
                kept@ == non_test_items(all),
                forall|k: int| 0 <= k < i ==> is_import_item(#[trigger] kept@[k]),
                !all_imports ==> i < kept.len() && !is_import_item(kept@[i as int]),
            decreases kept.len() - i + if all_imports { 1int } else { 0int },
        {
            all_imports = match &kept[i].kind {
                ItemKind::Use | ItemKind::ExternCrate => true,
                ItemKind::Mod { inline } => !*inline,
                _ => false,
            };
            if all_imports {
                i = i + 1;
            }
        }
        all_imports
    }

    fn parse_failure(cause: String) -> (r: Failure)
        ensures
            r@ == (FailureView { message: parse_failure_message(), cause: Some(cause@) }),
    {
        let message = crate::text::string_of(
            crate::text::chars_of("failed to parse Rust source").as_slice(),
        );
        let ghost c = cause@;
        let r = Failure::caused(message, cause);
        assert(r@.message == parse_failure_message());
        assert(r@.cause == Some(c));
        assert(r@ == (FailureView { message: parse_failure_message(), cause: Some(c) }));
        r
    }

    fn file_is_definition_only(&self, items: &Vec<ItemShape>) -> (r: bool)
        ensures
            r == definition_only_items(items@),
    {
        if items.len() == 0 {
            return false;
        }
        if self.all_definition_only(items) {
            return self.count_declaring_items(items) > 0;
        }
        if TrivialConstructorDetector::new().file_has_trivial_constructor(items.as_slice()) {
            return true;
        }
        HumbleAdapterDetector::new().file_is_humble_adapter(items.as_slice())
    }

    fn all_definition_only(&self, items: &Vec<ItemShape>) -> (r: bool)
        ensures
            r == forall|i: int| 0 <= i < items@.len() ==> is_definition_item(#[trigger] items@[i]),
    {
        let mut i: usize = 0;
        while i < items.len()
            invariant
                i <= items.len(),
                forall|k: int| 0 <= k < i ==> is_definition_item(#[trigger] items@[k]),
            decreases items.len() - i,
        {
            let item = &items[i];
            let definition = match &item.kind {
                ItemKind::Use | ItemKind::ExternCrate | ItemKind::Const | ItemKind::Static
                | ItemKind::Struct(_) | ItemKind::Enum(_) | ItemKind::TypeAlias
                | ItemKind::Trait => true,
                ItemKind::Mod { inline } => !*inline,
                _ => self.behaviourless_impl_detector.is_behaviourless_impl(item),
            };
            if !definition {
                return false;
            }
            i = i + 1;
        }
        true
    }

    /// How many of the items declare a type, trait, constant or static.
    fn count_declaring_items(&self, items: &Vec<ItemShape>) -> (n: usize)
        ensures
            n > 0 <==> exists|i: int| 0 <= i < items@.len() && is_declaring_item(#[trigger] items@[i]),
            n <= items@.len(),
    {
        let mut n: usize = 0;
        let mut i: usize = 0;
        while i < items.len()
            invariant
                i <= items.len(),
                n <= i,
                n > 0 <==> exists|k: int| 0 <= k < i && is_declaring_item(#[trigger] items@[k]),
            decreases items.len() - i,
        {
            let declaring = match &items[i].kind {
                ItemKind::Struct(_) | ItemKind::Enum(_) | ItemKind::TypeAlias | ItemKind::Trait
                | ItemKind::Const | ItemKind::Static => true,
                _ => false,
            };
            if declaring {
                assert(is_declaring_item(items@[i as int]));
                n = n + 1;
            }
            i = i + 1;
        }
        n
    }

    /// The items not gated to test builds, in order.
    fn top_level_non_test_items(&self, items: Vec<ItemShape>) -> (r: Vec<ItemShape>)
        ensures
            r@ == non_test_items(items@),
    {
        let ghost all = items@;
        assert(all.len() == items.len());
        let mut rest = items;
        let mut kept: Vec<ItemShape> = Vec::new();
        let mut k: usize = 0;
        while rest.len() > 0
            invariant
                k <= all.len(),
                all.len() <= usize::MAX,
                k + rest@.len() == all.len(),
                rest@ == all.skip(k as int),
                kept@ == non_test_items(all.take(k as int)),
            decreases rest.len(),
        {
            let item = rest.remove(0);
            proof {
                assert(item == all[k as int]);
                assert(rest@ =~= all.skip(k + 1));
                assert(all.take(k + 1).drop_last() =~= all.take(k as int));
                assert(all.take(k + 1).last() == item);
            }
            if !Self::has_test_attrs(&item.attrs) {
                kept.push(item);
            }
            k = k + 1;
        }
        assert(all.take(k as int) =~= all);
        kept
    }

    /// Whether the attributes gate an item to test builds: a `cfg` attribute
    /// whose text mentions `test`.
    pub fn has_test_attrs(attrs: &Vec<AttrShape>) -> (r: bool)
        ensures
            r == has_test_attr(attrs@),
    {
        attrs_mention_test(attrs)
    }
}

/// An item not gated to test builds stays among the non-test items.
proof fn lemma_non_test_keeps(items: Seq<ItemShape>, i: int)
    requires
        0 <= i < items.len(),
        !has_test_attr(items[i].attrs@),
    ensures
        non_test_items(items).contains(items[i]),
    decreases items.len(),
{
    if i == items.len() - 1 {
        assert(non_test_items(items) == non_test_items(items.drop_last()).push(items[i]));
        assert(non_test_items(items)[non_test_items(items).len() - 1] == items[i]);
    } else {
        assert(items.drop_last()[i] == items[i]);
        lemma_non_test_keeps(items.drop_last(), i);
        let rest = non_test_items(items.drop_last());
        let k = choose|k: int| 0 <= k < rest.len() && rest[k] == items[i];
        if !has_test_attr(items.last().attrs@) {
            assert(non_test_items(items) == rest.push(items.last()));
            assert(rest.push(items.last())[k] == items[i]);
        }
    }
}

/// The non-test items of two runs of items one after the other are those of
/// each, one after the other.
proof fn lemma_non_test_concat(a: Seq<ItemShape>, b: Seq<ItemShape>)
    ensures
        non_test_items(a + b) == non_test_items(a) + non_test_items(b),
    decreases b.len(),
{
    if b.len() == 0 {
        assert(a + b =~= a);
        assert(non_test_items(a) + non_test_items(b) =~= non_test_items(a));
    } else {
        assert((a + b).drop_last() =~= a + b.drop_last());
        assert((a + b).last() == b.last());
        lemma_non_test_concat(a, b.drop_last());
        if !has_test_attr(b.last().attrs@) {
            assert(non_test_items(a) + non_test_items(b.drop_last()).push(b.last()) =~= (
            non_test_items(a) + non_test_items(b.drop_last())).push(b.last()));
        }
    }
}

/// A top-level macro invocation keeps a file in scope: its expansion is
/// never seen, so the file is never taken for definitions only.
pub proof fn macro_keeps_file_in_scope(items: Seq<ItemShape>, m: int)
    requires
        0 <= m < items.len(),
        items[m].kind is Macro,
        !has_test_attr(items[m].attrs@),
    ensures
        !definition_only_file(items),
{
    lemma_non_test_keeps(items, m);
    let nt = non_test_items(items);
    let k = choose|k: int| 0 <= k < nt.len() && nt[k] == items[m];
    assert(!is_definition_item(nt[k]));
    assert(!is_inert_item(nt[k]));
    assert(!is_adapter_item(nt[k]));
    if has_trivial_constructor(nt) {
        let t = choose|t: int|
            #![trigger declared_type_name(nt[t])]
            0 <= t < nt.len() && is_sole_type_with_constructor(nt, t);
        assert(is_inert_item(nt[k]) || (t < k && is_trivial_constructor_item(
            nt[k],
            declared_type_name(nt[t])->0,
        )));
    }
}

/// A file with no item outside test builds is never taken for definitions
/// only: an empty source file is more likely an accident than a decision.
pub proof fn empty_file_stays_in_scope(items: Seq<ItemShape>)
    requires
        forall|i: int| 0 <= i < items.len() ==> has_test_attr(#[trigger] items[i].attrs@),
    ensures
        !definition_only_file(items),
    decreases items.len(),
{
    if items.len() > 0 {
        assert(items.drop_last().len() < items.len());
        assert forall|i: int| 0 <= i < items.drop_last().len() implies has_test_attr(
            #[trigger] items.drop_last()[i].attrs@,
        ) by {
            assert(items.drop_last()[i] == items[i]);
        }
        empty_file_stays_in_scope(items.drop_last());
        assert(has_test_attr(items[items.len() - 1].attrs@));
    }
    assert(non_test_items(items).len() == 0) by {
        lemma_no_non_test_items(items);
    }
}

/// Items all gated to test builds leave no non-test item.
proof fn lemma_no_non_test_items(items: Seq<ItemShape>)
    requires
        forall|i: int| 0 <= i < items.len() ==> has_test_attr(#[trigger] items[i].attrs@),
    ensures
        non_test_items(items).len() == 0,
    decreases items.len(),
{
    if items.len() > 0 {
        assert forall|i: int| 0 <= i < items.drop_last().len() implies has_test_attr(
            #[trigger] items.drop_last()[i].attrs@,
        ) by {
            assert(items.drop_last()[i] == items[i]);
        }
        lemma_no_non_test_items(items.drop_last());
        assert(has_test_attr(items[items.len() - 1].attrs@));
    }
}

/// Imports and `mod` declarations alone do not make a file definition-only:
/// at least one item has to declare something.
pub proof fn imports_alone_stay_in_scope(items: Seq<ItemShape>)
    requires
        forall|i: int| 0 <= i < items.len() ==> is_import_item(#[trigger] items[i]),
    ensures
        !definition_only_file(items),
{
    let nt = non_test_items(items);
    assert forall|k: int| 0 <= k < nt.len() implies is_import_item(#[trigger] nt[k]) by {
        lemma_non_test_from(items, k);
    }
    assert forall|k: int| 0 <= k < nt.len() implies !is_declaring_item(#[trigger] nt[k]) by {
        assert(is_import_item(nt[k]));
    }
    assert forall|k: int| 0 <= k < nt.len() implies is_definition_item(#[trigger] nt[k]) by {
        assert(is_import_item(nt[k]));
    }
}

/// Each non-test item is one of the items.
proof fn lemma_non_test_from(items: Seq<ItemShape>, k: int)
    requires
        0 <= k < non_test_items(items).len(),
    ensures
        exists|i: int| 0 <= i < items.len() && items[i] == #[trigger] non_test_items(items)[k],
    decreases items.len(),
{
    if items.len() > 0 {
        let rest = non_test_items(items.drop_last());
        if k < rest.len() {
            lemma_non_test_from(items.drop_last(), k);
            let i = choose|i: int| 0 <= i < items.drop_last().len() && items.drop_last()[i] == rest[k];
            assert(items[i] == items.drop_last()[i]);
            if !has_test_attr(items.last().attrs@) {
                assert(non_test_items(items)[k] == rest.push(items.last())[k]);
            }
        } else {
            assert(non_test_items(items)[k] == items.last());
            assert(items[items.len() - 1] == items.last());
        }
    }
}

/// Items gated to test builds are left aside before a file is classified:
/// putting one anywhere among the items changes nothing.
pub proof fn test_items_are_left_aside(before: Seq<ItemShape>, gated: ItemShape, after: Seq<ItemShape>)
    requires
        has_test_attr(gated.attrs@),
    ensures
        definition_only_file(before + seq![gated] + after) == definition_only_file(before + after),
        import_only_file(before + seq![gated] + after) == import_only_file(before + after),
{
    lemma_non_test_concat(before + seq![gated], after);
    lemma_non_test_concat(before, seq![gated]);
    lemma_non_test_concat(before, after);
    let single = seq![gated];
    assert(single.drop_last() =~= Seq::<ItemShape>::empty());
    assert(single.last() == gated);
    assert(non_test_items(Seq::<ItemShape>::empty()) == Seq::<ItemShape>::empty());
    assert(non_test_items(single) == non_test_items(single.drop_last()));
    assert(non_test_items(single) =~= Seq::<ItemShape>::empty());
    assert(non_test_items(before) + non_test_items(seq![gated]) =~= non_test_items(before));
}

/// A file of imports and declarations (structs, enums, type aliases,
/// traits, constants, statics), at least one declaration of which is kept
/// outside test builds, is definition-only: it asks for no test.
pub proof fn declarations_make_a_file_definition_only(items: Seq<ItemShape>, d: int)
    requires
        forall|i: int|
            0 <= i < items.len() ==> match (#[trigger] items[i]).kind {
                ItemKind::Use | ItemKind::ExternCrate | ItemKind::Struct(_) | ItemKind::Enum(_)
                | ItemKind::TypeAlias | ItemKind::Trait | ItemKind::Const | ItemKind::Static => true,
                ItemKind::Mod { inline } => !inline,
                _ => false,
            },
        0 <= d < items.len(),
        !has_test_attr(items[d].attrs@),
        match items[d].kind {
            ItemKind::Struct(_) | ItemKind::Enum(_) | ItemKind::TypeAlias | ItemKind::Trait
            | ItemKind::Const | ItemKind::Static => true,
            _ => false,
        },
    ensures
        definition_only_file(items),
{
    let nt = non_test_items(items);
    assert forall|k: int| 0 <= k < nt.len() implies is_definition_item(#[trigger] nt[k]) by {
        lemma_non_test_from(items, k);
        let j = choose|j: int| 0 <= j < items.len() && items[j] == nt[k];
        assert(match items[j].kind {
            ItemKind::Use | ItemKind::ExternCrate | ItemKind::Struct(_) | ItemKind::Enum(_)
            | ItemKind::TypeAlias | ItemKind::Trait | ItemKind::Const | ItemKind::Static => true,
            ItemKind::Mod { inline } => !inline,
            _ => false,
        });
    }
    lemma_non_test_keeps(items, d);
    let k = choose|k: int| 0 <= k < nt.len() && nt[k] == items[d];
    assert(is_declaring_item(nt[k]));
}

/// An item that carries or may carry code of its own (a free function, a
/// macro invocation, tokens left unparsed, a union, a trait alias, a foreign
/// block, a module with a body), kept outside test builds, keeps its file in
/// scope, whatever else the file holds.
pub proof fn code_keeps_file_in_scope(items: Seq<ItemShape>, m: int)
    requires
        0 <= m < items.len(),
        !has_test_attr(items[m].attrs@),
        match items[m].kind {
            ItemKind::Fn | ItemKind::Macro | ItemKind::Verbatim | ItemKind::Union
            | ItemKind::TraitAlias | ItemKind::ForeignMod => true,
            ItemKind::Mod { inline } => inline,
            _ => false,
        },
    ensures
        !definition_only_file(items),
{
    lemma_non_test_keeps(items, m);
    let nt = non_test_items(items);
    let k = choose|k: int| 0 <= k < nt.len() && nt[k] == items[m];
    assert(!is_definition_item(nt[k]));
    assert(!is_inert_item(nt[k]));
    assert(!is_adapter_item(nt[k]));
    if has_trivial_constructor(nt) {
        let t = choose|t: int|
            #![trigger declared_type_name(nt[t])]
            0 <= t < nt.len() && is_sole_type_with_constructor(nt, t);
        assert(is_inert_item(nt[k]) || (t < k && is_trivial_constructor_item(
            nt[k],
            declared_type_name(nt[t])->0,
        )));
    }
}

} // verus!
