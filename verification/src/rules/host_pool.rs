//! Round-robin origin pools for `host(...)`.
use crate::rules::error::{ModelErrorKind, RuleModelError};
use crate::rules::transforms::{is_err, ErrId};
use crate::rules::value::{value_views, Value, ValueView};
use crate::text::{chars_of, lit, trim, trim_chars};
use std::sync::atomic::{AtomicUsize, Ordering};
use std::sync::Arc;
use std::sync::OnceLock;
use vstd::prelude::*;

verus! {

#[verifier::external_type_specification]
#[verifier::external_body]
#[verifier::reject_recursive_types(T)]
pub struct ExOnceLock<T>(OnceLock<T>);

/// Why a list of address sources cannot form a pool, if it cannot: it is empty, or one of its
/// sources has only whitespace for text.
pub open spec fn pool_error(addresses: Seq<ValueView>) -> Option<ErrId> {
    if addresses.len() == 0 {
        Some((ModelErrorKind::EmptyInput, "host addresses"))
    } else if exists|i: int| 0 <= i < addresses.len() && trim(#[trigger] addresses[i].1).len() == 0 {
        Some((ModelErrorKind::EmptyInput, "host address"))
    } else {
        None
    }
}

/// A non-empty per-rule round-robin pool for `host(...)` origin selection.
///
/// Clones share the cursor but start with no selection of their own. Within one pool value,
/// the first [`selected_address`](Self::selected_address) call is remembered, so repeated route
/// inspection cannot advance the shared cursor.
#[derive(Debug)]
pub struct HostPool {
    addresses: Vec<Value>,
    cursor: Arc<AtomicUsize>,
    selection: OnceLock<usize>,
}

/// `OnceLock::new`: an empty selection slot.
#[verifier::external_body]
fn empty_selection() -> OnceLock<usize> {
    OnceLock::new()
}

/// `OnceLock::get_or_init`: the slot's index, drawn from the shared cursor by the first call.
/// Nothing is stated of the index: it depends on how many selections other clones of the pool
/// made before, and on which thread got there first.
#[verifier::external_body]
fn select_once(selection: &OnceLock<usize>, cursor: &AtomicUsize) -> usize {
    *selection.get_or_init(|| next_slot(cursor))
}

/// Takes the next position from a shared round-robin cursor.
fn next_slot(cursor: &AtomicUsize) -> usize {
    cursor.fetch_add(1, Ordering::Relaxed)
}

impl HostPool {
    /// The address sources, in round-robin order.
    pub closed spec fn view(&self) -> Seq<ValueView> {
        value_views(self.addresses@)
    }

    #[verifier::type_invariant]
    spec fn non_empty(self) -> bool {
        self.addresses@.len() > 0
    }

    /// Builds a pool after rejecting an empty list or an address source with blank text.
    pub fn new(addresses: Vec<Value>) -> (r: Result<HostPool, RuleModelError>)
        ensures
            r is Ok <==> pool_error(value_views(addresses@)) is None,
            r matches Ok(p) ==> p.view() == value_views(addresses@),
            r matches Err(e) ==> is_err(e, pool_error(value_views(addresses@))->0),
    {
        let ghost views = value_views(addresses@);
        if addresses.len() == 0 {
            return Err(RuleModelError::EmptyInput {
                context: "host addresses",
                message: lit("host requires at least one address"),
            });
        }
        let mut i: usize = 0;
        while i < addresses.len()
            invariant
                views == value_views(addresses@),
                i <= addresses@.len(),
                forall|j: int| 0 <= j < i ==> trim(#[trigger] views[j].1).len() != 0,
            decreases addresses@.len() - i,
        {
            let text = chars_of(addresses[i].source());
            let trimmed = trim_chars(&text);
            if trimmed.len() == 0 {
                assert(trim(views[i as int].1).len() == 0);
                return Err(RuleModelError::EmptyInput {
                    context: "host address",
                    message: lit("host addresses cannot be empty"),
                });
            }
            i += 1;
        }
        Ok(HostPool { addresses, cursor: Arc::new(AtomicUsize::new(0)), selection: empty_selection() })
    }

    /// Returns the configured address sources in their round-robin order.
    pub fn addresses(&self) -> (r: &[Value])
        ensures
            value_views(r@) == self.view(),
    {
        self.addresses.as_slice()
    }

    /// The address a drawn round-robin `slot` stands for: the slot taken modulo the pool's size.
    pub fn address_at(&self, slot: usize) -> (r: &Value)
        ensures
            self.view().len() > 0,
            r@ == self.view()[(slot as nat % self.view().len()) as int],
    {
        proof {
            use_type_invariant(self);
        }
        let k = slot % self.addresses.len();
        let r = &self.addresses[k];
        assert(r@ == self.view()[k as int]);
        r
    }

    /// Selects once for this pool value and returns the same address on later calls: the
    /// address of the slot this value first drew from the cursor it shares with its clones.
    pub fn selected_address(&self) -> (r: &Value)
        ensures
            exists|slot: usize| r@ == #[trigger] self.view()[(slot as nat % self.view().len()) as int],
    {
        let slot = select_once(&self.selection, &*self.cursor);
        self.address_at(slot)
    }

}

impl Clone for HostPool {
    /// A pool over the same addresses that shares this pool's cursor but has made no selection.
    fn clone(&self) -> (r: HostPool)
        ensures
            r.view() == self.view(),
    {
        proof {
            use_type_invariant(self);
        }
        let mut addresses: Vec<Value> = Vec::new();
        let mut i: usize = 0;
        while i < self.addresses.len()
            invariant
                i <= self.addresses@.len(),
                addresses@.len() == i,
                forall|j: int| 0 <= j < i ==> #[trigger] addresses@[j]@ == self.addresses@[j]@,
            decreases self.addresses@.len() - i,
        {
            let d = self.addresses[i].duplicate();
            addresses.push(d);
            i += 1;
        }
        assert(value_views(addresses@) =~= value_views(self.addresses@));
        HostPool { addresses, cursor: self.cursor.clone(), selection: empty_selection() }
    }
}

} // verus!
