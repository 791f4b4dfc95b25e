//! Single-type files whose only `impl` is a trivial `new`: one method, no
//! generics, returning `Self`, whose body is a single struct literal.
use vstd::prelude::*;
use crate::behaviourless_impl_detector::{BehaviourlessImplDetector, is_behaviourless};
use crate::syntax::{
    ItemShape, ItemKind, ImplShape, MemberShape, FnShape, StmtShape, declared_type_name,
    self_type_name, returns_self, declared_type, self_type, fn_returns_self,
};
use crate::text::string_is;

verus! {

pub open spec fn new_name() -> Seq<char> {
    seq!['n', 'e', 'w']
}

/// Whether the method is a trivial `new`: named `new`, no generic
/// parameters, returning `Self`, and a body made of one struct literal.
pub open spec fn is_trivial_new(method: FnShape) -> bool {
    &&& method.name@ == new_name()
    &&& method.generic_params == 0
    &&& returns_self(method)
    &&& method.body@.len() == 1
    &&& method.body@[0] is StructLiteral
}

/// Whether an `impl` block is inherent, for the type `name`, and holds a
/// trivial `new` and nothing else.
pub open spec fn impl_is_trivial_constructor(item_impl: ImplShape, name: Seq<char>) -> bool {
    &&& !item_impl.is_trait_impl
    &&& self_type_name(item_impl.self_ty) == Some(name)
    &&& item_impl.members@.len() == 1
    &&& match item_impl.members@[0] {
        MemberShape::Fn(method) => is_trivial_new(method),
        MemberShape::Other => false,
    }
}

/// Whether the item is an `impl` block holding only a trivial constructor for
/// `name`.
pub open spec fn is_trivial_constructor_item(item: ItemShape, name: Seq<char>) -> bool {
    match item.kind {
        ItemKind::Impl(item_impl) => impl_is_trivial_constructor(item_impl, name),
        _ => false,
    }
}

/// The items a file may hold beside its type and its constructor: imports,
/// `mod` declarations, constants, statics, type aliases, traits, structs,
/// enums and behaviourless trait impls.
pub open spec fn is_inert_item(item: ItemShape) -> bool {
    match item.kind {
        ItemKind::Use | ItemKind::ExternCrate | ItemKind::Const | ItemKind::Static
        | ItemKind::TypeAlias | ItemKind::Trait | ItemKind::Struct(_) | ItemKind::Enum(_) => true,
        ItemKind::Mod { inline } => !inline,
        _ => is_behaviourless(item),
    }
}

/// Whether the items hold a single type whose only behaviour is a trivial
/// constructor: exactly one struct or enum, every other item inert except
/// exactly one trivial-constructor `impl` for that type, placed after it.
pub open spec fn has_trivial_constructor(items: Seq<ItemShape>) -> bool {
    exists|t: int|
        #![trigger declared_type_name(items[t])]
        0 <= t < items.len() && is_sole_type_with_constructor(items, t)
}

/// `items[t]` is the only type the items declare, and the rest of the file
/// is as `has_trivial_constructor` describes it.
pub open spec fn is_sole_type_with_constructor(items: Seq<ItemShape>, t: int) -> bool {
    &&& declared_type_name(items[t]) is Some
    &&& forall|j: int|
        0 <= j < items.len() && j != t ==> (#[trigger] declared_type_name(items[j])) is None
    &&& forall|i: int|
        0 <= i < items.len() ==> is_inert_item(#[trigger] items[i]) || (t < i
            && is_trivial_constructor_item(items[i], declared_type_name(items[t])->0))
    &&& exists|c: int|
        #![trigger items[c]]
        t < c < items.len() && is_trivial_constructor_item(
            items[c],
            declared_type_name(items[t])->0,
        ) && forall|i: int|
            t < i < items.len() && is_trivial_constructor_item(
                #[trigger] items[i],
                declared_type_name(items[t])->0,
            ) ==> i == c
}

/// Behaviour beyond a trivial `new` puts a file back in scope: an `impl`
/// block that carries a method and is no trivial constructor (a `new` with a
/// branch, a second method, a trait impl with a method) rules the exemption
/// out.
pub proof fn behaviour_beyond_a_trivial_new_counts(items: Seq<ItemShape>, i: int)
    requires
        0 <= i < items.len(),
        items[i].kind matches ItemKind::Impl(item_impl) && !is_behaviourless(items[i])
            && forall|name: Seq<char>| !impl_is_trivial_constructor(item_impl, name),
    ensures
        !has_trivial_constructor(items),
{
    if has_trivial_constructor(items) {
        let t = choose|t: int|
            #![trigger declared_type_name(items[t])]
            0 <= t < items.len() && is_sole_type_with_constructor(items, t);
        assert(is_inert_item(items[i]) || (t < i && is_trivial_constructor_item(
            items[i],
            declared_type_name(items[t])->0,
        )));
    }
}

/// More than one trivial constructor for the type rules the exemption out:
/// the type must hold exactly one.
pub proof fn a_second_trivial_new_counts(items: Seq<ItemShape>, i: int, j: int, name: Seq<char>)
    requires
        0 <= i < j < items.len(),
        is_trivial_constructor_item(items[i], name),
        is_trivial_constructor_item(items[j], name),
    ensures
        !has_trivial_constructor(items),
{
    if has_trivial_constructor(items) {
        let t = choose|t: int|
            #![trigger declared_type_name(items[t])]
            0 <= t < items.len() && is_sole_type_with_constructor(items, t);
        let n = declared_type_name(items[t])->0;
        assert(!is_inert_item(items[i]));
        assert(!is_inert_item(items[j]));
        assert(is_trivial_constructor_item(items[i], n));
        assert(is_trivial_constructor_item(items[j], n));
        let c = choose|c: int|
            #![trigger items[c]]
            t < c < items.len() && is_trivial_constructor_item(items[c], n) && forall|k: int|
                t < k < items.len() && is_trivial_constructor_item(#[trigger] items[k], n) ==> k == c;
        assert(t < i);
        assert(i == c);
        assert(j == c);
    }
}

/// A module with a body carries code of its own: beside a type and its
/// trivial `new`, it rules the exemption out.
pub proof fn an_inline_module_counts(items: Seq<ItemShape>, m: int)
    requires
        0 <= m < items.len(),
        items[m].kind == (ItemKind::Mod { inline: true }),
    ensures
        !has_trivial_constructor(items),
{
    if has_trivial_constructor(items) {
        let t = choose|t: int|
            #![trigger declared_type_name(items[t])]
            0 <= t < items.len() && is_sole_type_with_constructor(items, t);
        assert(is_inert_item(items[m]) || (t < m && is_trivial_constructor_item(
            items[m],
            declared_type_name(items[t])->0,
        )));
    }
}

#[derive(Default)]
pub struct TrivialConstructorDetector {
    behaviourless_impl_detector: BehaviourlessImplDetector,
}

impl TrivialConstructorDetector {
    pub fn new() -> Self {
        TrivialConstructorDetector { behaviourless_impl_detector: BehaviourlessImplDetector::new() }
    }

    /// Whether the items are one type with a trivial constructor and nothing
    /// else that behaves.
    pub fn file_has_trivial_constructor(&self, items: &[ItemShape]) -> (r: bool)
        ensures
            r == has_trivial_constructor(items@),
    {
        let mut tracked_type: Option<&String> = None;
        let ghost mut t: int = -1;
        let mut count: usize = 0;
        let ghost mut c: int = -1;
        let mut k: usize = 0;
        while k < items.len()
            invariant
                k <= items.len(),
                tracked_type is None ==> forall|j: int|
                    0 <= j < k ==> (#[trigger] declared_type_name(items@[j])) is None,
                tracked_type is None ==> count == 0,
                tracked_type matches Some(n) ==> {
                    &&& 0 <= t < k
                    &&& declared_type_name(items@[t]) == Some(n@)
                    &&& forall|j: int|
                        0 <= j < k && j != t ==> (#[trigger] declared_type_name(items@[j])) is None
                },
                forall|i: int|
                    0 <= i < k ==> is_inert_item(#[trigger] items@[i]) || (tracked_type is Some && t
                        < i && is_trivial_constructor_item(items@[i], tracked_type->0@)),
                count <= 1,
                count == 0 ==> (tracked_type matches Some(n) ==> forall|i: int|
                    t < i < k ==> !is_trivial_constructor_item(#[trigger] items@[i], n@)),
                count == 1 ==> (tracked_type matches Some(n) && t < c < k
                    && is_trivial_constructor_item(items@[c], n@) && forall|i: int|
                    t < i < k && is_trivial_constructor_item(#[trigger] items@[i], n@) ==> i == c),
            decreases items.len() - k,
        {
            let item = &items[k];
            match declared_type(item) {
                Some(name) => {
                    if tracked_type.is_some() {
                        proof {
                            assert forall|w: int|
                                0 <= w < items@.len() implies !is_sole_type_with_constructor(
                                items@,
                                w,
                            ) by {
                                if w != t {
                                    assert(declared_type_name(items@[t]) is Some);
                                }
                            }
                        }
                        return false;
                    }
                    tracked_type = Some(name);
                    proof {
                        t = k as int;
                    }
                },
                None => {},
            }
            let mut counted = false;
            if let ItemKind::Impl(item_impl) = &item.kind {
                if let Some(name) = tracked_type {
                    if self.impl_is_trivial_constructor_only(item_impl, name.as_str()) {
                        count = count + 1;
                        if count > 1 {
                            proof {
                                assert forall|w: int|
                                    0 <= w < items@.len() implies !is_sole_type_with_constructor(
                                    items@,
                                    w,
                                ) by {
                                    if is_sole_type_with_constructor(items@, w) {
                                        assert(w == t);
                                        assert(is_trivial_constructor_item(items@[c], name@));
                                        assert(is_trivial_constructor_item(
                                            items@[k as int],
                                            name@,
                                        ));
                                    }
                                }
                            }
                            return false;
                        }
                        counted = true;
                        proof {
                            c = k as int;
                        }
                    }
                }
            }
            if !counted && !self.is_allowed_item(item) {
                proof {
                    assert forall|w: int|
                        0 <= w < items@.len() implies !is_sole_type_with_constructor(items@, w) by {
                        if is_sole_type_with_constructor(items@, w) {
                            if tracked_type is Some {
                                assert(w == t);
                            } else {
                                assert(w > k);
                            }
                            assert(!is_inert_item(items@[k as int]));
                        }
                    }
                }
                return false;
            }
            k = k + 1;
        }
        let r = tracked_type.is_some() && count == 1;
        proof {
            if r {
                assert(is_sole_type_with_constructor(items@, t));
                assert(declared_type_name(items@[t]) is Some);
            } else {
                assert forall|w: int|
                    0 <= w < items@.len() implies !is_sole_type_with_constructor(items@, w) by {
                    if is_sole_type_with_constructor(items@, w) {
                        if tracked_type is Some {
                            assert(w == t);
                        } else {
                            assert(declared_type_name(items@[w]) is Some);
                        }
                    }
                }
            }
        }
        r
    }

    /// Whether `item_impl` is inherent, for `expected_name`, and holds a
    /// trivial `new` and nothing else.
    pub fn impl_is_trivial_constructor_only(
        &self,
        item_impl: &ImplShape,
        expected_name: &str,
    ) -> (r: bool)
        ensures
            r == impl_is_trivial_constructor(*item_impl, expected_name@),
    {
        if item_impl.is_trait_impl {
            return false;
        }
        match self_type(&item_impl.self_ty) {
            Some(name) => {
                if !string_is(name, expected_name) {
                    return false;
                }
            },
            None => return false,
        }
        if item_impl.members.len() != 1 {
            return false;
        }
        let method = match &item_impl.members[0] {
            MemberShape::Fn(method) => method,
            MemberShape::Other => return false,
        };
        proof {
            reveal_strlit("new");
            assert("new"@ =~= new_name());
        }
        if !string_is(&method.name, "new") {
            return false;
        }
        if method.generic_params != 0 {
            return false;
        }
        fn_returns_self(method) && Self::has_single_struct_literal_body(method)
    }

    fn has_single_struct_literal_body(method: &FnShape) -> (r: bool)
        ensures
            r == (method.body@.len() == 1 && method.body@[0] is StructLiteral),
    {
        method.body.len() == 1 && match method.body[0] {
            StmtShape::StructLiteral => true,
            _ => false,
        }
    }

    /// Whether the item may stand beside the type and its constructor.
    fn is_allowed_item(&self, item: &ItemShape) -> (r: bool)
        ensures
            r == is_inert_item(*item),
    {
        match &item.kind {
            ItemKind::Use | ItemKind::ExternCrate | ItemKind::Const | ItemKind::Static
            | ItemKind::TypeAlias | ItemKind::Trait | ItemKind::Struct(_) | ItemKind::Enum(_) => true,
            ItemKind::Mod { inline } => !*inline,
            _ => self.behaviourless_impl_detector.is_behaviourless_impl(item),
        }
    }
}

} // verus!
