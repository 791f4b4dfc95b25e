//! Trait impls that carry no method: `impl Marker for T {}` or a blanket
//! `impl<T> Alias for T where ...` introduce no executable behaviour.
use vstd::prelude::*;
use crate::syntax::{ItemShape, ItemKind, MemberShape, ImplShape};

verus! {

/// Whether the member is a method.
pub open spec fn is_method(member: MemberShape) -> bool {
    member is Fn
}

/// Whether an `impl` block implements a trait and carries no method.
/// An inherent impl is never behaviourless, even when empty: it is the block
/// the trivial-constructor and humble-adapter rules count.
pub open spec fn impl_is_behaviourless(item_impl: ImplShape) -> bool {
    item_impl.is_trait_impl && forall|i: int|
        0 <= i < item_impl.members@.len() ==> !is_method(#[trigger] item_impl.members@[i])
}

/// Whether the item is a behaviourless trait impl.
pub open spec fn is_behaviourless(item: ItemShape) -> bool {
    match item.kind {
        ItemKind::Impl(item_impl) => impl_is_behaviourless(item_impl),
        _ => false,
    }
}

#[derive(Default)]
pub struct BehaviourlessImplDetector;

impl BehaviourlessImplDetector {
    pub fn new() -> Self {
        BehaviourlessImplDetector
    }

    /// Whether `item` is a trait impl that carries no method.
    pub fn is_behaviourless_impl(&self, item: &ItemShape) -> (r: bool)
        ensures
            r == is_behaviourless(*item),
    {
        match &item.kind {
            ItemKind::Impl(item_impl) => {
                if !item_impl.is_trait_impl {
                    return false;
                }
                let mut i: usize = 0;
                while i < item_impl.members.len()
                    invariant
                        i <= item_impl.members.len(),
                        item.kind == ItemKind::Impl(*item_impl),
                        item_impl.is_trait_impl,
                        forall|k: int| 0 <= k < i ==> !is_method(#[trigger] item_impl.members@[k]),
                    decreases item_impl.members.len() - i,
                {
                    if let MemberShape::Fn(_) = &item_impl.members[i] {
                        assert(is_method(item_impl.members@[i as int]));
                        return false;
                    }
                    i = i + 1;
                }
                true
            },
            _ => false,
        }
    }
}

} // verus!
