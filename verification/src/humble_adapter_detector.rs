//! Humble adapters: a single type whose inherent methods all either hold what
//! they were given (a trivial `new`) or forward it onwards (one call, nothing
//! returned).
use vstd::prelude::*;
use crate::syntax::{
    ItemShape, ItemKind, ImplShape, MemberShape, FnShape, StmtShape, declared_type_name,
    self_type_name, returns_nothing, declared_type, self_type, fn_returns_nothing, fn_returns_self,
};
use crate::trivial_constructor_detector::is_trivial_new;
use crate::text::string_is;

verus! {

/// Whether the method forwards: it returns nothing and its whole body is one
/// function or method call.
pub open spec fn is_forwarding(method: FnShape) -> bool {
    &&& returns_nothing(method)
    &&& method.body@.len() == 1
    &&& (method.body@[0] is Call || method.body@[0] is MethodCall)
}

/// Whether the method only holds what it was given or forwards it.
pub open spec fn is_humble_method(method: FnShape) -> bool {
    is_trivial_new(method) || is_forwarding(method)
}

/// Whether an `impl` block is inherent, for the type `name`, and made only of
/// humble methods.
pub open spec fn impl_is_humble_spec(item_impl: ImplShape, name: Seq<char>) -> bool {
    &&& !item_impl.is_trait_impl
    &&& self_type_name(item_impl.self_ty) == Some(name)
    &&& forall|i: int|
        0 <= i < item_impl.members@.len() ==> match #[trigger] item_impl.members@[i] {
            MemberShape::Fn(method) => is_humble_method(method),
            MemberShape::Other => false,
        }
}

/// Whether an `impl` block carries a forwarding method.
pub open spec fn impl_forwards(item_impl: ImplShape) -> bool {
    exists|i: int|
        0 <= i < item_impl.members@.len() && match #[trigger] item_impl.members@[i] {
            MemberShape::Fn(method) => is_forwarding(method),
            MemberShape::Other => false,
        }
}

/// The items a humble adapter's file may hold: imports, `mod` declarations,
/// constants, statics, type aliases, traits, structs, enums and impls.
pub open spec fn is_adapter_item(item: ItemShape) -> bool {
    match item.kind {
        ItemKind::Use | ItemKind::ExternCrate | ItemKind::Const | ItemKind::Static
        | ItemKind::TypeAlias | ItemKind::Trait | ItemKind::Struct(_) | ItemKind::Enum(_)
        | ItemKind::Impl(_) => true,
        ItemKind::Mod { inline } => !inline,
        _ => false,
    }
}

/// Whether `items[t]` is a struct or an enum and no other item is one.
pub open spec fn is_sole_type_at(items: Seq<ItemShape>, t: int) -> bool {
    &&& 0 <= t < items.len()
    &&& declared_type_name(items[t]) is Some
    &&& forall|j: int|
        0 <= j < items.len() && j != t ==> (#[trigger] declared_type_name(items[j])) is None
}

/// The type the items declare, when they declare exactly one struct or enum.
pub open spec fn sole_declared_type(items: Seq<ItemShape>) -> Option<Seq<char>> {
    if exists|t: int| is_sole_type_at(items, t) {
        declared_type_name(items[choose|t: int| is_sole_type_at(items, t)])
    } else {
        None
    }
}

/// Whether the items are a humble adapter: exactly one declared type, only
/// adapter items, every `impl` humble for that type, and at least one method
/// that forwards.
pub open spec fn is_humble_adapter(items: Seq<ItemShape>) -> bool {
    &&& sole_declared_type(items) is Some
    &&& forall|i: int| 0 <= i < items.len() ==> is_adapter_item(#[trigger] items[i])
    &&& forall|i: int|
        0 <= i < items.len() ==> match (#[trigger] items[i]).kind {
            ItemKind::Impl(item_impl) => impl_is_humble_spec(
                item_impl,
                sole_declared_type(items)->0,
            ),
            _ => true,
        }
    &&& exists|i: int|
        0 <= i < items.len() && match (#[trigger] items[i]).kind {
            ItemKind::Impl(item_impl) => impl_forwards(item_impl),
            _ => false,
        }
}

/// An adapter whose method does anything but hold or forward (a branch, a
/// loop, a binding: any statement that is neither a call nor a struct
/// literal) is no humble adapter, and its file stays in scope.
pub proof fn a_method_with_more_than_a_call_is_not_humble(items: Seq<ItemShape>, i: int, m: int, k: int)
    requires
        0 <= i < items.len(),
        items[i].kind is Impl,
        0 <= m < items[i].kind->Impl_0.members@.len(),
        items[i].kind->Impl_0.members@[m] is Fn,
        0 <= k < items[i].kind->Impl_0.members@[m]->Fn_0.body@.len(),
        items[i].kind->Impl_0.members@[m]->Fn_0.body@[k] is Other,
    ensures
        !is_humble_adapter(items),
{
    if is_humble_adapter(items) {
        let item_impl = items[i].kind->Impl_0;
        assert(impl_is_humble_spec(item_impl, sole_declared_type(items)->0));
        assert(match item_impl.members@[m] {
            MemberShape::Fn(method) => is_humble_method(method),
            MemberShape::Other => false,
        });
    }
}

/// The adapter's methods must be its own type's: an `impl` block whose self
/// type is not the one struct or enum the file declares rules the humble
/// adapter out, whatever its methods hold.
pub proof fn an_impl_for_another_type_is_not_humble(items: Seq<ItemShape>, i: int, t: int)
    requires
        0 <= i < items.len(),
        0 <= t < items.len(),
        items[i].kind is Impl,
        declared_type_name(items[t]) is Some,
        self_type_name(items[i].kind->Impl_0.self_ty) != declared_type_name(items[t]),
    ensures
        !is_humble_adapter(items),
{
    if is_humble_adapter(items) {
        let s = choose|s: int| is_sole_type_at(items, s);
        if t != s {
            assert(declared_type_name(items[t]) is None);
        }
        assert(match items[i].kind {
            ItemKind::Impl(item_impl) => impl_is_humble_spec(item_impl, sole_declared_type(items)->0),
            _ => true,
        });
    }
}

/// A trait impl is never humble: the adapter's methods are its type's own.
pub proof fn a_trait_impl_is_not_humble(items: Seq<ItemShape>, i: int)
    requires
        0 <= i < items.len(),
        items[i].kind is Impl,
        items[i].kind->Impl_0.is_trait_impl,
    ensures
        !is_humble_adapter(items),
{
    if is_humble_adapter(items) {
        assert(match items[i].kind {
            ItemKind::Impl(item_impl) => impl_is_humble_spec(item_impl, sole_declared_type(items)->0),
            _ => true,
        });
    }
}

/// A file declaring two structs or enums is no humble adapter: the rule is
/// for a single type.
pub proof fn two_types_are_not_one_adapter(items: Seq<ItemShape>, a: int, b: int)
    requires
        0 <= a < b < items.len(),
        declared_type_name(items[a]) is Some,
        declared_type_name(items[b]) is Some,
    ensures
        !is_humble_adapter(items),
{
    if sole_declared_type(items) is Some {
        let s = choose|s: int| is_sole_type_at(items, s);
        if s != a {
            assert(declared_type_name(items[a]) is None);
        } else {
            assert(declared_type_name(items[b]) is None);
        }
    }
}

/// A file none of whose methods forwards is no humble adapter, however
/// humble its methods are: an empty `impl` or a constructor alone earns
/// nothing here.
pub proof fn without_forwarding_there_is_no_adapter(items: Seq<ItemShape>)
    requires
        forall|i: int, m: int|
            0 <= i < items.len() && (#[trigger] items[i]).kind is Impl && 0 <= m
                < items[i].kind->Impl_0.members@.len() && (
            #[trigger] items[i].kind->Impl_0.members@[m]) is Fn ==> !is_forwarding(
                items[i].kind->Impl_0.members@[m]->Fn_0,
            ),
    ensures
        !is_humble_adapter(items),
{
    if is_humble_adapter(items) {
        let i = choose|i: int|
            0 <= i < items.len() && match (#[trigger] items[i]).kind {
                ItemKind::Impl(item_impl) => impl_forwards(item_impl),
                _ => false,
            };
        let item_impl = items[i].kind->Impl_0;
        let m = choose|m: int|
            0 <= m < item_impl.members@.len() && match #[trigger] item_impl.members@[m] {
                MemberShape::Fn(method) => is_forwarding(method),
                MemberShape::Other => false,
            };
        assert(items[i].kind->Impl_0.members@[m] is Fn);
    }
}

#[derive(Default)]
pub struct HumbleAdapterDetector;

impl HumbleAdapterDetector {
    pub fn new() -> Self {
        HumbleAdapterDetector
    }

    /// Whether the items are a humble adapter.
    pub fn file_is_humble_adapter(&self, items: &[ItemShape]) -> (r: bool)
        ensures
            r == is_humble_adapter(items@),
    {
        let adapted_type = match Self::single_declared_type(items) {
            Some(name) => name,
            None => return false,
        };
        let mut i: usize = 0;
        while i < items.len()
            invariant
                i <= items.len(),
                sole_declared_type(items@) == Some(adapted_type@),
                forall|k: int| 0 <= k < i ==> is_adapter_item(#[trigger] items@[k]),
                forall|k: int|
                    0 <= k < i ==> match (#[trigger] items@[k]).kind {
                        ItemKind::Impl(item_impl) => impl_is_humble_spec(item_impl, adapted_type@),
                        _ => true,
                    },
            decreases items.len() - i,
        {
            let item = &items[i];
            if !Self::is_allowed_item(item) {
                return false;
            }
            if let ItemKind::Impl(item_impl) = &item.kind {
                if !Self::impl_is_humble(item_impl, adapted_type.as_str()) {
                    return false;
                }
            }
            i = i + 1;
        }
        Self::has_forwarding_method(items)
    }

    fn has_forwarding_method(items: &[ItemShape]) -> (r: bool)
        ensures
            r == exists|i: int|
                0 <= i < items@.len() && match (#[trigger] items@[i]).kind {
                    ItemKind::Impl(item_impl) => impl_forwards(item_impl),
                    _ => false,
                },
    {
        let mut i: usize = 0;
        while i < items.len()
            invariant
                i <= items.len(),
                forall|k: int|
                    0 <= k < i ==> !match (#[trigger] items@[k]).kind {
                        ItemKind::Impl(item_impl) => impl_forwards(item_impl),
                        _ => false,
                    },
            decreases items.len() - i,
        {
            if let ItemKind::Impl(item_impl) = &items[i].kind {
                let mut j: usize = 0;
                while j < item_impl.members.len()
                    invariant
                        j <= item_impl.members.len(),
                        i < items.len(),
                        items@[i as int].kind == ItemKind::Impl(*item_impl),
                        forall|k: int|
                            0 <= k < j ==> !match #[trigger] item_impl.members@[k] {
                                MemberShape::Fn(method) => is_forwarding(method),
                                MemberShape::Other => false,
                            },
                    decreases item_impl.members.len() - j,
                {
                    if let MemberShape::Fn(method) = &item_impl.members[j] {
                        if Self::is_forwarding(method) {
                            assert(impl_forwards(*item_impl));
                            assert(match items@[i as int].kind {
                                ItemKind::Impl(item_impl) => impl_forwards(item_impl),
                                _ => false,
                            });
                            return true;
                        }
                    }
                    j = j + 1;
                }
            }
            i = i + 1;
        }
        false
    }

    /// The name of the only struct or enum among the items, if there is
    /// exactly one.
    fn single_declared_type(items: &[ItemShape]) -> (r: Option<&String>)
        ensures
            match r {
                Some(name) => sole_declared_type(items@) == Some(name@),
                None => sole_declared_type(items@) is None,
            },
    {
        let mut found: Option<&String> = None;
        let ghost mut t: int = -1;
        let mut i: usize = 0;
        while i < items.len()
            invariant
                i <= items.len(),
                found is None ==> forall|j: int|
                    0 <= j < i ==> (#[trigger] declared_type_name(items@[j])) is None,
                found matches Some(n) ==> {
                    &&& 0 <= t < i
                    &&& declared_type_name(items@[t]) == Some(n@)
                    &&& forall|j: int|
                        0 <= j < i && j != t ==> (#[trigger] declared_type_name(items@[j])) is None
                },
            decreases items.len() - i,
        {
            match declared_type(&items[i]) {
                Some(name) => {
                    if found.is_some() {
                        proof {
                            assert forall|w: int| !is_sole_type_at(items@, w) by {
                                if is_sole_type_at(items@, w) {
                                    if w != t {
                                        assert(declared_type_name(items@[t]) is Some);
                                    } else {
                                        assert(declared_type_name(items@[i as int]) is Some);
                                    }
                                }
                            }
                        }
                        return None;
                    }
                    found = Some(name);
                    proof {
                        t = i as int;
                    }
                },
                None => {},
            }
            i = i + 1;
        }
        proof {
            if found is Some {
                assert(is_sole_type_at(items@, t));
                let w = choose|w: int| is_sole_type_at(items@, w);
                if w != t {
                    assert(declared_type_name(items@[t]) is None);
                }
            } else {
                assert forall|w: int| !is_sole_type_at(items@, w) by {
                    if 0 <= w < items@.len() {
                        assert(declared_type_name(items@[w]) is None);
                    }
                }
            }
        }
        found
    }

    /// Whether an `impl` block is inherent, for `adapted_type`, and made only of
    /// humble methods.
    fn impl_is_humble(item_impl: &ImplShape, adapted_type: &str) -> (r: bool)
        ensures
            r == impl_is_humble_spec(*item_impl, adapted_type@),
    {
        if item_impl.is_trait_impl {
            return false;
        }
        match self_type(&item_impl.self_ty) {
            Some(name) => {
                if !string_is(name, adapted_type) {
                    return false;
                }
            },
            None => return false,
        }
        let mut i: usize = 0;
        while i < item_impl.members.len()
            invariant
                i <= item_impl.members.len(),
                forall|k: int|
                    0 <= k < i ==> match #[trigger] item_impl.members@[k] {
                        MemberShape::Fn(method) => is_humble_method(method),
                        MemberShape::Other => false,
                    },
            decreases item_impl.members.len() - i,
        {
            match &item_impl.members[i] {
                MemberShape::Fn(method) => {
                    if !Self::method_is_humble(method) {
                        return false;
                    }
                },
                MemberShape::Other => return false,
            }
            i = i + 1;
        }
        true
    }

    fn method_is_humble(method: &FnShape) -> (r: bool)
        ensures
            r == is_humble_method(*method),
    {
        Self::is_trivial_constructor(method) || Self::is_forwarding(method)
    }

    fn is_trivial_constructor(method: &FnShape) -> (r: bool)
        ensures
            r == is_trivial_new(*method),
    {
        proof {
            reveal_strlit("new");
            assert("new"@ =~= crate::trivial_constructor_detector::new_name());
        }
        string_is(&method.name, "new") && method.generic_params == 0
            && fn_returns_self(method) && method.body.len() == 1 && match method.body[0] {
            StmtShape::StructLiteral => true,
            _ => false,
        }
    }

    /// Whether the method returns nothing and its body is one call.
    fn is_forwarding(method: &FnShape) -> (r: bool)
        ensures
            r == is_forwarding(*method),
    {
        if !fn_returns_nothing(method) {
            return false;
        }
        if method.body.len() != 1 {
            return false;
        }
        match method.body[0] {
            StmtShape::Call | StmtShape::MethodCall => true,
            _ => false,
        }
    }

    /// Whether the item may stand in a humble adapter's file.
    fn is_allowed_item(item: &ItemShape) -> (r: bool)
        ensures
            r == is_adapter_item(*item),
    {
        match &item.kind {
            ItemKind::Use | ItemKind::ExternCrate | ItemKind::Const | ItemKind::Static
            | ItemKind::TypeAlias | ItemKind::Trait | ItemKind::Struct(_) | ItemKind::Enum(_)
            | ItemKind::Impl(_) => true,
            ItemKind::Mod { inline } => !*inline,
            _ => false,
        }
    }
}

} // verus!
